//! `diff`: which files have changes to show, how much each changed, and the
//! git command that shows a file's diff.
use vstd::prelude::*;

use crate::error::SupgitError;
use crate::plan::GitOutput;
use crate::status::{entry_views, status_x, status_y, EntryView};
use crate::text::{
    copy_string, decimal, find, find_exec, from_chars, index_of_char, join_args, join_spaces, lines,
    lines_of, find_char_from, parse_u64, parse_unsigned, push_decimal, push_str, to_chars, trim,
    trim_string, views,
};

verus! {

/// The kind of change a file has.
#[derive(Clone, Copy, PartialEq, Eq, Structural, Debug)]
pub enum ChangeType {
    Modified,
    Created,
    Deleted,
    Renamed,
    Copied,
    TypeChanged,
    Unmerged,
    Untracked,
}

/// The word shown for a kind of change (an untracked file shows as created).
pub open spec fn change_label(c: ChangeType) -> Seq<char> {
    match c {
        ChangeType::Modified => "modified"@,
        ChangeType::Created => "created"@,
        ChangeType::Deleted => "deleted"@,
        ChangeType::Renamed => "renamed"@,
        ChangeType::Copied => "copied"@,
        ChangeType::TypeChanged => "type-changed"@,
        ChangeType::Unmerged => "unmerged"@,
        ChangeType::Untracked => "created"@,
    }
}

impl ChangeType {
    pub fn label(self) -> (r: &'static str)
        ensures
            r@ == change_label(self),
    {
        match self {
            ChangeType::Modified => "modified",
            ChangeType::Created => "created",
            ChangeType::Deleted => "deleted",
            ChangeType::Renamed => "renamed",
            ChangeType::Copied => "copied",
            ChangeType::TypeChanged => "type-changed",
            ChangeType::Unmerged => "unmerged",
            ChangeType::Untracked => "created",
        }
    }
}

/// The change that a one-letter status code stands for.
pub open spec fn code_change(code: char) -> Option<ChangeType> {
    if code == 'M' {
        Some(ChangeType::Modified)
    } else if code == 'A' {
        Some(ChangeType::Created)
    } else if code == 'D' {
        Some(ChangeType::Deleted)
    } else if code == 'R' {
        Some(ChangeType::Renamed)
    } else if code == 'C' {
        Some(ChangeType::Copied)
    } else if code == 'T' {
        Some(ChangeType::TypeChanged)
    } else if code == 'U' {
        Some(ChangeType::Unmerged)
    } else {
        None
    }
}

/// The change a status shows on the staged side (index column) or on the
/// unstaged side (worktree column, where untracked files count too).
pub open spec fn classify(st: Seq<char>, staged: bool) -> Option<ChangeType> {
    if !staged && status_x(st) == '?' && status_y(st) == '?' {
        Some(ChangeType::Untracked)
    } else {
        code_change(
            if staged {
                status_x(st)
            } else {
                status_y(st)
            },
        )
    }
}

/// The change that `status` shows on the requested side, if any.
pub fn classify_change(status: &str, staged: bool) -> (r: Option<ChangeType>)
    ensures
        r == classify(status@, staged),
{
    let v = to_chars(status);
    let x = if v.len() > 0 {
        v[0]
    } else {
        ' '
    };
    let y = if v.len() > 1 {
        v[1]
    } else {
        ' '
    };
    if !staged && x == '?' && y == '?' {
        return Some(ChangeType::Untracked);
    }
    let code = if staged {
        x
    } else {
        y
    };
    if code == 'M' {
        Some(ChangeType::Modified)
    } else if code == 'A' {
        Some(ChangeType::Created)
    } else if code == 'D' {
        Some(ChangeType::Deleted)
    } else if code == 'R' {
        Some(ChangeType::Renamed)
    } else if code == 'C' {
        Some(ChangeType::Copied)
    } else if code == 'T' {
        Some(ChangeType::TypeChanged)
    } else if code == 'U' {
        Some(ChangeType::Unmerged)
    } else {
        None
    }
}

/// The path git knows a file by: for a rename `old -> new`, the new path.
pub open spec fn canonical_path(p: Seq<char>) -> Seq<char> {
    let k = find(p, " -> "@);
    if k >= 0 {
        p.skip(k + 4)
    } else {
        p
    }
}

/// The path to hand git for a porcelain path (the target of a rename).
pub fn canonical_git_path(path: &str) -> (r: String)
    ensures
        r@ == canonical_path(path@),
{
    let v = to_chars(path);
    let sep = to_chars(" -> ");
    proof {
        reveal_strlit(" -> ");
    }
    match find_exec(&v, &sep) {
        Some(k) => {
            proof {
                crate::text::lemma_find_range(v@, sep@);
                assert(sep@.len() == 4);
                assert(crate::text::matches_at(v@, sep@, k as int));
            }
            assert(k + 4 <= v.len());
            from_chars(&v, k + 4, v.len())
        },
        None => {
            assert(v@.subrange(0, v@.len() as int) =~= v@);
            from_chars(&v, 0, v.len())
        },
    }
}

/// A count from `git diff --numstat`: `-` (a binary file) gives none.
pub open spec fn numstat_value(raw: Seq<char>) -> Option<usize> {
    if raw == "-"@ {
        None
    } else {
        match parse_unsigned(raw) {
            Some(n) => if n <= usize::MAX {
                Some(n as usize)
            } else {
                None
            },
            None => None,
        }
    }
}

fn numstat_value_chars(v: &Vec<char>) -> (r: Option<usize>)
    ensures
        r == numstat_value(v@),
{
    proof {
        reveal_strlit("-");
    }
    if v.len() == 1 && v[0] == '-' {
        assert(v@ =~= "-"@);
        return None;
    }
    assert(v@ != "-"@);
    match parse_u64(v) {
        Some(n) => if n <= usize::MAX as u64 {
            Some(n as usize)
        } else {
            None
        },
        None => None,
    }
}

/// One count column of `git diff --numstat`.
pub fn parse_numstat_value(raw: &str) -> (r: Option<usize>)
    ensures
        r == numstat_value(raw@),
{
    let v = to_chars(raw);
    numstat_value_chars(&v)
}

/// The first two tab-separated fields of a line (the second absent when the
/// line has no tab).
pub open spec fn tab_fields(l: Seq<char>) -> (Seq<char>, Option<Seq<char>>) {
    let k = index_of_char(l, '\t');
    if k < 0 {
        (l, None)
    } else {
        let rest = l.skip(k + 1);
        let k2 = index_of_char(rest, '\t');
        (
            l.take(k),
            Some(
                if k2 < 0 {
                    rest
                } else {
                    rest.take(k2)
                },
            ),
        )
    }
}

/// The added and deleted line counts that `git diff --numstat` prints on its
/// first line; no line at all means no change.
pub open spec fn numstat_counts(s: Seq<char>) -> (Option<usize>, Option<usize>) {
    let ls = lines(s);
    if ls.len() == 0 {
        (Some(0), Some(0))
    } else {
        let f = tab_fields(ls[0]);
        (
            numstat_value(f.0),
            match f.1 {
                Some(b) => numstat_value(b),
                None => None,
            },
        )
    }
}

fn tab_fields_exec(l: &Vec<char>) -> (r: (Vec<char>, Option<Vec<char>>))
    ensures
        r.0@ == tab_fields(l@).0,
        match r.1 {
            Some(b) => tab_fields(l@).1 == Some(b@),
            None => tab_fields(l@).1 is None,
        },
{
    assert(l@.skip(0) =~= l@);
    match find_char_from(l, 0, '\t') {
        None => {
            let all = from_chars(l, 0, l.len());
            assert(l@.subrange(0, l@.len() as int) =~= l@);
            (to_chars(all.as_str()), None)
        },
        Some(k) => {
            let first = from_chars(l, 0, k);
            assert(l@.subrange(0, k as int) =~= l@.take(k as int));
            let ghost rest = l@.skip(k + 1);
            let end = match find_char_from(l, k + 1, '\t') {
                Some(k2) => k2,
                None => l.len(),
            };
            let second = from_chars(l, k + 1, end);
            assert(second@ =~= (if index_of_char(rest, '\t') < 0 {
                rest
            } else {
                rest.take(index_of_char(rest, '\t'))
            }));
            (to_chars(first.as_str()), Some(to_chars(second.as_str())))
        },
    }
}

/// The counts from the output of `git diff --numstat`.
pub fn parse_numstat_output(stdout: &str) -> (r: (Option<usize>, Option<usize>))
    ensures
        r == numstat_counts(stdout@),
{
    let v = to_chars(stdout);
    let ls = lines_of(&v);
    if ls.len() == 0 {
        return (Some(0), Some(0));
    }
    let l = to_chars(ls[0].as_str());
    assert(l@ == lines(stdout@)[0]);
    let (first, second) = tab_fields_exec(&l);
    let a = numstat_value_chars(&first);
    let b = match second {
        Some(b) => numstat_value_chars(&b),
        None => None,
    };
    (a, b)
}

/// The arguments of the `git diff --numstat` run for one path.
pub open spec fn numstat_args_view(path: Seq<char>, staged: bool) -> Seq<Seq<char>> {
    seq!["diff"@, "--numstat"@] + (if staged {
        seq!["--staged"@]
    } else {
        seq![]
    }) + seq!["--"@, path]
}

pub fn numstat_args(path: &str, staged: bool) -> (r: Vec<String>)
    ensures
        views(r@) == numstat_args_view(path@, staged),
{
    let mut args: Vec<String> = Vec::new();
    push_str(&mut args, "diff");
    push_str(&mut args, "--numstat");
    if staged {
        push_str(&mut args, "--staged");
    }
    push_str(&mut args, "--");
    push_str(&mut args, path);
    assert(views(args@) =~= numstat_args_view(path@, staged));
    args
}

/// The counts of a tracked file from its `git diff --numstat` run.
pub fn tracked_change_counts(path: &str, staged: bool, output: &GitOutput) -> (r: Result<
    (Option<usize>, Option<usize>),
    SupgitError,
>)
    ensures
        output.success ==> r == Ok::<(Option<usize>, Option<usize>), SupgitError>(
            numstat_counts(output.stdout@),
        ),
        !output.success ==> (r matches Err(SupgitError::GitFailed(a, m)) && a@ == join_spaces(
            numstat_args_view(path@, staged),
        ) && m@ == trim(output.stderr@)),
{
    if output.success {
        Ok(parse_numstat_output(output.stdout.as_str()))
    } else {
        let args = numstat_args(path, staged);
        Err(SupgitError::GitFailed(join_args(&args), trim_string(output.stderr.as_str())))
    }
}

// ---------------------------------------------------------------------------
// Counting the lines of an untracked file
// ---------------------------------------------------------------------------

/// The number of newline bytes in `b`.
pub open spec fn newline_count(b: Seq<u8>) -> nat
    decreases b.len(),
{
    if b.len() == 0 {
        0
    } else {
        newline_count(b.drop_last()) + if b.last() == 10u8 {
            1nat
        } else {
            0nat
        }
    }
}

proof fn lemma_newline_count_le(b: Seq<u8>)
    ensures
        newline_count(b) <= b.len(),
    decreases b.len(),
{
    if b.len() > 0 {
        lemma_newline_count_le(b.drop_last());
    }
}

/// The number of lines of a text: its newlines, plus one for a last line
/// without a newline. (Decoding invalid UTF-8 leaves newline bytes as they
/// are, so this is also the line count of the lossily decoded text.)
pub open spec fn text_line_count(b: Seq<u8>) -> nat {
    newline_count(b) + if b.len() > 0 && b.last() != 10u8 {
        1nat
    } else {
        0nat
    }
}

/// The line count of a file's contents, refused for a binary file (one that
/// holds a NUL byte).
pub fn count_file_lines(contents: &[u8]) -> (r: Result<usize, SupgitError>)
    ensures
        (exists|i: int| 0 <= i < contents@.len() && contents@[i] == 0u8) ==> r matches Err(
            SupgitError::BinaryFile,
        ),
        !(exists|i: int| 0 <= i < contents@.len() && contents@[i] == 0u8) ==> r is Ok && r->Ok_0
            == text_line_count(contents@),
{
    let ghost b = contents@;
    let mut n: usize = 0;
    let mut i: usize = 0;
    assert(b.take(0) =~= Seq::<u8>::empty());
    while i < contents.len()
        invariant
            i <= contents.len(),
            b == contents@,
            n == newline_count(b.take(i as int)),
            n <= i,
            forall|j: int| 0 <= j < i ==> b[j] != 0u8,
        decreases contents.len() - i,
    {
        assert(b.take(i + 1).drop_last() =~= b.take(i as int));
        if contents[i] == 0 {
            return Err(SupgitError::BinaryFile);
        }
        if contents[i] == 10 {
            n = n + 1;
        }
        i += 1;
    }
    assert(b.take(i as int) =~= b);
    if contents.len() > 0 && contents[contents.len() - 1] != 10 {
        proof {
            lemma_newline_count_le(b.drop_last());
        }
        assert(n < contents.len());
        n = n + 1;
    }
    Ok(n)
}

/// The counts of an untracked file: its line count as additions (none when
/// it could not be read or is binary) and no deletions.
pub fn untracked_change_counts(contents: Option<&[u8]>) -> (r: (Option<usize>, Option<usize>))
    ensures
        r.1 == Some(0usize),
        match contents {
            None => r.0 is None,
            Some(b) => if exists|i: int| 0 <= i < b@.len() && b@[i] == 0u8 {
                r.0 is None
            } else {
                r.0 == Some(text_line_count(b@) as usize)
            },
        },
{
    match contents {
        None => (None, Some(0)),
        Some(b) => match count_file_lines(b) {
            Ok(n) => (Some(n), Some(0)),
            Err(_) => (None, Some(0)),
        },
    }
}


// ---------------------------------------------------------------------------
// The files offered for a diff
// ---------------------------------------------------------------------------

/// A changed file, before its line counts are known.
pub struct DiffCandidate {
    /// The path as the status listing shows it.
    pub display_path: String,
    /// The path to hand git.
    pub git_path: String,
    pub change_type: ChangeType,
}

/// A changed file with its line counts (none for a binary file).
pub struct FileDiffEntry {
    pub display_path: String,
    pub git_path: String,
    pub change_type: ChangeType,
    pub additions: Option<usize>,
    pub deletions: Option<usize>,
}

/// The candidate a status entry gives, if it has a change on the requested side.
pub open spec fn candidate_of(e: EntryView, staged: bool) -> Option<(Seq<char>, Seq<char>, ChangeType)> {
    match classify(e.0, staged) {
        Some(t) => Some((e.1, canonical_path(e.1), t)),
        None => None,
    }
}

pub open spec fn candidate_fn(staged: bool) -> spec_fn(EntryView) -> Option<(Seq<char>, Seq<char>, ChangeType)> {
    |e: EntryView| candidate_of(e, staged)
}

pub open spec fn candidate_views(c: Seq<DiffCandidate>) -> Seq<(Seq<char>, Seq<char>, ChangeType)> {
    c.map_values(|d: DiffCandidate| (d.display_path@, d.git_path@, d.change_type))
}

/// The files with a change on the requested side, in status order.
pub fn build_diff_entries(entries: &Vec<(String, String)>, staged: bool) -> (r: Vec<DiffCandidate>)
    ensures
        candidate_views(r@) == entry_views(entries@).filter_map(candidate_fn(staged)),
{
    let ghost ev = entry_views(entries@);
    let mut out: Vec<DiffCandidate> = Vec::new();
    let mut i: usize = 0;
    while i < entries.len()
        invariant
            i <= entries.len(),
            ev == entry_views(entries@),
            candidate_views(out@) == ev.take(i as int).filter_map(candidate_fn(staged)),
        decreases entries.len() - i,
    {
        assert(ev.take(i + 1).drop_last() =~= ev.take(i as int));
        assert(ev.take(i + 1).last() == (entries@[i as int].0@, entries@[i as int].1@));
        let ghost old_out = out@;
        match classify_change(entries[i].0.as_str(), staged) {
            Some(t) => {
                let c = DiffCandidate {
                    display_path: copy_string(&entries[i].1),
                    git_path: canonical_git_path(entries[i].1.as_str()),
                    change_type: t,
                };
                out.push(c);
                assert(candidate_views(out@) =~= candidate_views(old_out).push(
                    (entries@[i as int].1@, canonical_path(entries@[i as int].1@), t),
                ));
            },
            None => {},
        }
        i += 1;
    }
    assert(ev.take(entries.len() as int) =~= ev);
    out
}

impl FileDiffEntry {
    /// A candidate with its counts.
    pub fn new(c: DiffCandidate, additions: Option<usize>, deletions: Option<usize>) -> (r: FileDiffEntry)
        ensures
            r.display_path@ == c.display_path@,
            r.git_path@ == c.git_path@,
            r.change_type == c.change_type,
            r.additions == additions,
            r.deletions == deletions,
    {
        FileDiffEntry {
            display_path: c.display_path,
            git_path: c.git_path,
            change_type: c.change_type,
            additions,
            deletions,
        }
    }
}

/// `+added -deleted`, or `binary` when a count is missing.
pub open spec fn stat_text(a: Option<usize>, d: Option<usize>) -> Seq<char> {
    match (a, d) {
        (Some(a), Some(d)) => "+"@ + decimal(a as nat) + " -"@ + decimal(d as nat),
        _ => "binary"@,
    }
}

/// The menu line of a file: `path [kind] (stats)`.
pub open spec fn selector_item(e: FileDiffEntry) -> Seq<char> {
    e.display_path@ + " ["@ + change_label(e.change_type) + "] ("@ + stat_text(e.additions, e.deletions)
        + ")"@
}

pub fn format_selector_item(entry: &FileDiffEntry) -> (r: String)
    ensures
        r@ == selector_item(*entry),
{
    let mut stat = String::new();
    match (entry.additions, entry.deletions) {
        (Some(a), Some(d)) => {
            stat.append("+");
            push_decimal(&mut stat, a as u64);
            stat.append(" -");
            push_decimal(&mut stat, d as u64);
        },
        _ => {
            stat.append("binary");
        },
    }
    assert(stat@ =~= stat_text(entry.additions, entry.deletions));
    let mut s = copy_string(&entry.display_path);
    s.append(" [");
    s.append(entry.change_type.label());
    s.append("] (");
    s.append(stat.as_str());
    s.append(")");
    assert(s@ =~= selector_item(*entry));
    s
}

/// The menu of the diff selector: one line per file, then `Cancel`.
pub fn diff_selector_items(entries: &Vec<FileDiffEntry>) -> (r: Vec<String>)
    ensures
        views(r@) == entries@.map_values(|e: FileDiffEntry| selector_item(e)).push("Cancel"@),
{
    let mut out: Vec<String> = Vec::new();
    let mut i: usize = 0;
    while i < entries.len()
        invariant
            i <= entries.len(),
            views(out@) == entries@.take(i as int).map_values(|e: FileDiffEntry| selector_item(e)),
        decreases entries.len() - i,
    {
        let ghost old_out = out@;
        let item = format_selector_item(&entries[i]);
        out.push(item);
        assert(views(out@) =~= views(old_out).push(selector_item(entries@[i as int])));
        assert(entries@.take(i + 1).map_values(|e: FileDiffEntry| selector_item(e)) =~= entries@.take(
            i as int,
        ).map_values(|e: FileDiffEntry| selector_item(e)).push(selector_item(entries@[i as int])));
        i += 1;
    }
    assert(entries@.take(entries.len() as int) =~= entries@);
    push_str(&mut out, "Cancel");
    out
}

/// The prompt of the diff selector.
pub fn diff_selector_prompt(staged: bool) -> (r: &'static str)
    ensures
        r@ == if staged {
            "Select a staged file to view its diff"@
        } else {
            "Select an unstaged file to view its diff"@
        },
{
    if staged {
        "Select a staged file to view its diff"
    } else {
        "Select an unstaged file to view its diff"
    }
}

/// What the selector says when there is nothing to diff.
pub fn no_diff_files_message(staged: bool) -> (r: &'static str)
    ensures
        r@ == if staged {
            "No staged files to diff."@
        } else {
            "No unstaged files to diff."@
        },
{
    if staged {
        "No staged files to diff."
    } else {
        "No unstaged files to diff."
    }
}

// ---------------------------------------------------------------------------
// Showing a diff
// ---------------------------------------------------------------------------

/// What `diff` does: show one path, or offer a selector.
pub enum DiffRequest {
    /// Show the diff of this path (taken as tracked).
    ShowPath { path: String, staged: bool, untracked: bool },
    /// Let the user pick a file.
    Select { staged: bool },
}

/// With a path, show that path's diff (as a tracked file); without one,
/// offer the files that changed.
pub fn run_diff(path: Option<String>, staged: bool) -> (r: DiffRequest)
    ensures
        match path {
            Some(p) => r matches DiffRequest::ShowPath { path: q, staged: s, untracked: u } && q@
                == p@ && s == staged && !u,
            None => r matches DiffRequest::Select { staged: s } && s == staged,
        },
{
    match path {
        Some(p) => DiffRequest::ShowPath { path: p, staged, untracked: false },
        None => DiffRequest::Select { staged },
    }
}

/// The git arguments that show a file's diff in color.
pub open spec fn show_diff_args(path: Seq<char>, staged: bool, untracked: bool) -> Seq<Seq<char>> {
    if untracked {
        seq!["diff"@, "--no-index"@, "--color=always"@, "--"@, "/dev/null"@, path]
    } else {
        seq!["-c"@, "color.ui=always"@, "diff"@] + (if staged {
            seq!["--staged"@]
        } else {
            seq![]
        }) + seq!["--"@, path]
    }
}

/// The git command that shows a file's diff: an untracked file is compared
/// with `/dev/null`.
pub fn show_diff_for_path(path: &str, staged: bool, untracked: bool) -> (r: Vec<String>)
    ensures
        views(r@) == show_diff_args(path@, staged, untracked),
{
    let mut args: Vec<String> = Vec::new();
    if untracked {
        push_str(&mut args, "diff");
        push_str(&mut args, "--no-index");
        push_str(&mut args, "--color=always");
        push_str(&mut args, "--");
        push_str(&mut args, "/dev/null");
        push_str(&mut args, path);
    } else {
        push_str(&mut args, "-c");
        push_str(&mut args, "color.ui=always");
        push_str(&mut args, "diff");
        if staged {
            push_str(&mut args, "--staged");
        }
        push_str(&mut args, "--");
        push_str(&mut args, path);
    }
    assert(views(args@) =~= show_diff_args(path@, staged, untracked));
    args
}

/// What a finished diff shows: its output, or a note when it is blank.
pub open spec fn diff_text(path: Seq<char>, stdout: Seq<char>) -> Seq<char> {
    if trim(stdout).len() == 0 {
        "No diff output for '"@ + path + "'.\n"@
    } else {
        stdout
    }
}

/// The text to print for a finished diff run. `git diff --no-index` exits
/// with 1 when the files differ, which is no failure.
pub fn diff_output_text(path: &str, staged: bool, untracked: bool, output: &GitOutput) -> (r: Result<
    String,
    SupgitError,
>)
    ensures
        !untracked && !output.success ==> (r matches Err(SupgitError::GitFailed(a, m)) && a@
            == join_spaces(show_diff_args(path@, staged, false)) && m@ == trim(output.stderr@)),
        untracked && !output.success && output.code != Some(1i32) ==> (r matches Err(
            SupgitError::UntrackedDiffFailed(m),
        ) && m@ == trim(output.stderr@)),
        (output.success || (untracked && output.code == Some(1i32))) ==> r is Ok && r->Ok_0@
            == diff_text(path@, output.stdout@),
{
    if !output.success {
        if !untracked {
            let args = show_diff_for_path(path, staged, false);
            return Err(
                SupgitError::GitFailed(join_args(&args), trim_string(output.stderr.as_str())),
            );
        }
        match output.code {
            Some(c) => if c != 1 {
                return Err(SupgitError::UntrackedDiffFailed(trim_string(output.stderr.as_str())));
            },
            None => {
                return Err(SupgitError::UntrackedDiffFailed(trim_string(output.stderr.as_str())));
            },
        }
    }
    let t = trim_string(output.stdout.as_str());
    if t.as_str().is_empty() {
        let mut s = String::from_str("No diff output for '");
        s.append(path);
        s.append("'.\n");
        Ok(s)
    } else {
        Ok(copy_string(&output.stdout))
    }
}


// ---------------------------------------------------------------------------
// Laws
// ---------------------------------------------------------------------------

/// A file counts as untracked only on the unstaged side, and exactly when
/// both status columns are `?`.
pub proof fn law_untracked_only_unstaged(st: Seq<char>)
    ensures
        classify(st, true) != Some(ChangeType::Untracked),
        classify(st, false) == Some(ChangeType::Untracked) <==> (status_x(st) == '?' && status_y(st)
            == '?'),
{
}

/// An untracked file is shown as created.
pub proof fn law_untracked_shown_as_created()
    ensures
        change_label(ChangeType::Untracked) == change_label(ChangeType::Created),
{
}

/// A path that is not a rename is handed to git as it is.
pub proof fn law_plain_path_unchanged(p: Seq<char>)
    ensures
        !crate::text::contains(p, " -> "@) ==> canonical_path(p) == p,
{
}

/// Every file offered for a diff has a change on the requested side, and
/// never more files are offered than there are status entries.
pub proof fn law_candidates_have_changes(es: Seq<EntryView>, staged: bool)
    ensures
        es.filter_map(candidate_fn(staged)).len() <= es.len(),
        forall|i: int|
            0 <= i < es.filter_map(candidate_fn(staged)).len() ==> (exists|j: int|
                0 <= j < es.len() && classify(es[j].0, staged) == Some(
                    (#[trigger] es.filter_map(candidate_fn(staged))[i]).2,
                ) && es[j].1 == es.filter_map(candidate_fn(staged))[i].0),
    decreases es.len(),
{
    if es.len() > 0 {
        let f = candidate_fn(staged);
        let rest = es.drop_last();
        law_candidates_have_changes(rest, staged);
        let out = es.filter_map(f);
        assert forall|i: int| 0 <= i < out.len() implies (exists|j: int|
            0 <= j < es.len() && classify(es[j].0, staged) == Some((#[trigger] out[i]).2) && es[j].1
                == out[i].0) by {
            if i < rest.filter_map(f).len() {
                assert(out[i] == rest.filter_map(f)[i]);
                let j = choose|j: int|
                    0 <= j < rest.len() && classify(rest[j].0, staged) == Some(
                        rest.filter_map(f)[i].2,
                    ) && rest[j].1 == rest.filter_map(f)[i].0;
                assert(es[j] == rest[j]);
            } else {
                assert(es[es.len() - 1] == es.last());
            }
        }
    }
}

/// The kind of change is read from one status column by a fixed letter
/// table: the index column for the staged side, the worktree column for the
/// unstaged side (where `??` is an untracked file). `M` is modified, `A`
/// created, `D` deleted, `R` renamed, `C` copied, `T` type-changed, `U`
/// unmerged; any other letter shows no change on that side.
pub proof fn law_change_letters(st: Seq<char>)
    ensures
        ({
            let c = status_x(st);
            &&& c == 'M' ==> classify(st, true) == Some(ChangeType::Modified)
            &&& c == 'A' ==> classify(st, true) == Some(ChangeType::Created)
            &&& c == 'D' ==> classify(st, true) == Some(ChangeType::Deleted)
            &&& c == 'R' ==> classify(st, true) == Some(ChangeType::Renamed)
            &&& c == 'C' ==> classify(st, true) == Some(ChangeType::Copied)
            &&& c == 'T' ==> classify(st, true) == Some(ChangeType::TypeChanged)
            &&& c == 'U' ==> classify(st, true) == Some(ChangeType::Unmerged)
            &&& !(c == 'M' || c == 'A' || c == 'D' || c == 'R' || c == 'C' || c == 'T' || c == 'U')
                ==> classify(st, true) is None
        }),
        ({
            let c = status_y(st);
            let untracked = status_x(st) == '?' && status_y(st) == '?';
            &&& untracked ==> classify(st, false) == Some(ChangeType::Untracked)
            &&& !untracked && c == 'M' ==> classify(st, false) == Some(ChangeType::Modified)
            &&& !untracked && c == 'A' ==> classify(st, false) == Some(ChangeType::Created)
            &&& !untracked && c == 'D' ==> classify(st, false) == Some(ChangeType::Deleted)
            &&& !untracked && c == 'R' ==> classify(st, false) == Some(ChangeType::Renamed)
            &&& !untracked && c == 'C' ==> classify(st, false) == Some(ChangeType::Copied)
            &&& !untracked && c == 'T' ==> classify(st, false) == Some(ChangeType::TypeChanged)
            &&& !untracked && c == 'U' ==> classify(st, false) == Some(ChangeType::Unmerged)
            &&& !untracked && !(c == 'M' || c == 'A' || c == 'D' || c == 'R' || c == 'C' || c == 'T'
                || c == 'U') ==> classify(st, false) is None
        }),
{
}

} // verus!
