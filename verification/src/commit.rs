//! `commit`: the checks on a commit request and the git commands it runs.
use vstd::prelude::*;

use crate::error::SupgitError;
use crate::plan::{call_view, git_call, GitCall};
use crate::text::{
    copy_string, decimal, push_decimal, push_str, push_string, str_contains, to_chars, trim,
    trim_string, views,
};

verus! {

/// Whether a commit is to be asked for interactively: no message and no
/// scope flag. Refused in non-interactive mode.
pub fn commit_is_interactive(
    has_message: bool,
    all: bool,
    staged: bool,
    unstaged: bool,
    non_interactive: bool,
) -> (r: Result<bool, SupgitError>)
    ensures
        !has_message && !all && !staged && !unstaged && non_interactive ==> r matches Err(
            SupgitError::CommitNeedsMessage,
        ),
        !has_message && !all && !staged && !unstaged && !non_interactive ==> r == Ok::<
            bool,
            SupgitError,
        >(true),
        (has_message || all || staged || unstaged) ==> r == Ok::<bool, SupgitError>(false),
{
    let interactive = !has_message && !all && !staged && !unstaged;
    if interactive && non_interactive {
        return Err(SupgitError::CommitNeedsMessage);
    }
    Ok(interactive)
}

/// The flags `(all, staged, unstaged, pick_files)` a pick from the scope
/// menu stands for: staged, unstaged, all, or custom (pick the files to
/// stage, fourth and later positions).
pub fn commit_scope_flags(scope: usize) -> (r: (bool, bool, bool, bool))
    ensures
        r == if scope == 0 {
            (false, true, false, false)
        } else if scope == 1 {
            (false, false, true, false)
        } else if scope == 2 {
            (true, false, false, false)
        } else {
            (false, false, false, scope == 3)
        },
{
    if scope == 0 {
        (false, true, false, false)
    } else if scope == 1 {
        (false, false, true, false)
    } else if scope == 2 {
        (true, false, false, false)
    } else {
        (false, false, false, scope == 3)
    }
}

/// The git commands of a commit.
pub struct CommitPlan {
    /// What to stage first, if anything.
    pub staging: Option<GitCall>,
    /// Whether the staging runs in the repository root (it does for a list
    /// of picked files).
    pub stage_in_root: bool,
    /// The commit itself.
    pub commit: GitCall,
    /// Whether to push afterwards.
    pub push: bool,
    /// Whether to warn before amending (when the repository has commits).
    pub amend_check: bool,
}

/// The staging step: everything, the tracked files, or the picked files.
pub open spec fn staging_view(all: bool, unstaged: bool, custom: Seq<Seq<char>>) -> Option<(Seq<Seq<char>>, Seq<char>)> {
    if all {
        Some((seq!["add"@, "-A"@], "Staged all files"@))
    } else if unstaged {
        Some((seq!["add"@, "-u"@], "Staged tracked files"@))
    } else if custom.len() > 0 {
        Some((seq!["add"@] + custom, "Staged "@ + decimal(custom.len()) + " file(s)"@))
    } else {
        None
    }
}

/// `git commit [--amend] [--no-verify] -m <message>`.
pub open spec fn commit_args_view(message: Seq<char>, amend: bool, skip_hooks: bool) -> Seq<Seq<char>> {
    seq!["commit"@] + (if amend {
        seq!["--amend"@]
    } else {
        seq![]
    }) + (if skip_hooks {
        seq!["--no-verify"@]
    } else {
        seq![]
    }) + seq!["-m"@, message]
}

pub open spec fn opt_call_view(o: Option<GitCall>) -> Option<(Seq<Seq<char>>, Seq<char>)> {
    match o {
        Some(c) => Some(call_view(c)),
        None => None,
    }
}

/// The commands of a commit request, refused for a blank message and for
/// `--staged` with `--all` or `--unstaged`.
pub fn plan_commit(
    message: &str,
    all: bool,
    staged: bool,
    unstaged: bool,
    push: bool,
    amend: bool,
    skip_hooks: bool,
    custom_files: &Vec<String>,
) -> (r: Result<CommitPlan, SupgitError>)
    ensures
        trim(message@).len() == 0 ==> r matches Err(SupgitError::EmptyCommitMessage),
        trim(message@).len() > 0 && staged && (all || unstaged) ==> r matches Err(
            SupgitError::StagedConflict,
        ),
        trim(message@).len() > 0 && !(staged && (all || unstaged)) ==> (r matches Ok(p) && opt_call_view(
            p.staging,
        ) == staging_view(all, unstaged, views(custom_files@)) && p.stage_in_root == (!all
            && !unstaged && custom_files.len() > 0) && call_view(p.commit) == (commit_args_view(
            message@,
            amend,
            skip_hooks,
        ), "Commit created"@) && p.push == push && p.amend_check == (amend && !skip_hooks)),
{
    if trim_string(message).as_str().is_empty() {
        return Err(SupgitError::EmptyCommitMessage);
    }
    if staged && (all || unstaged) {
        return Err(SupgitError::StagedConflict);
    }
    let staging = if all {
        let mut a: Vec<String> = Vec::new();
        push_str(&mut a, "add");
        push_str(&mut a, "-A");
        Some(git_call(a, String::from_str("Staged all files")))
    } else if unstaged {
        let mut a: Vec<String> = Vec::new();
        push_str(&mut a, "add");
        push_str(&mut a, "-u");
        Some(git_call(a, String::from_str("Staged tracked files")))
    } else if custom_files.len() > 0 {
        let mut a: Vec<String> = Vec::new();
        push_str(&mut a, "add");
        let mut i: usize = 0;
        while i < custom_files.len()
            invariant
                i <= custom_files.len(),
                views(a@) == seq!["add"@] + views(custom_files@).take(i as int),
            decreases custom_files.len() - i,
        {
            push_string(&mut a, copy_string(&custom_files[i]));
            assert(views(custom_files@).take(i + 1) =~= views(custom_files@).take(i as int).push(
                custom_files@[i as int]@,
            ));
            i += 1;
        }
        assert(views(custom_files@).take(custom_files.len() as int) =~= views(custom_files@));
        let mut m = String::from_str("Staged ");
        push_decimal(&mut m, custom_files.len() as u64);
        m.append(" file(s)");
        Some(git_call(a, m))
    } else {
        None
    };
    let mut c: Vec<String> = Vec::new();
    push_str(&mut c, "commit");
    if amend {
        push_str(&mut c, "--amend");
    }
    if skip_hooks {
        push_str(&mut c, "--no-verify");
    }
    push_str(&mut c, "-m");
    push_str(&mut c, message);
    let commit = git_call(c, String::from_str("Commit created"));
    assert(call_view(commit).0 =~= commit_args_view(message@, amend, skip_hooks));
    let p = CommitPlan {
        staging,
        stage_in_root: !all && !unstaged && custom_files.len() > 0,
        commit,
        push,
        amend_check: amend && !skip_hooks,
    };
    assert(opt_call_view(p.staging) =~= staging_view(all, unstaged, views(custom_files@)));
    Ok(p)
}

/// Whether `git log --oneline -n 1` showed a commit: its output, when it ran
/// and was UTF-8, is not blank.
pub fn log_shows_commits(stdout: Option<&str>) -> (r: bool)
    ensures
        r == match stdout {
            Some(s) => trim(s@).len() > 0,
            None => false,
        },
{
    match stdout {
        Some(s) => !trim_string(s).as_str().is_empty(),
        None => false,
    }
}

/// The line printed before committing.
pub fn committing_line(amend: bool) -> (r: &'static str)
    ensures
        r@ == if amend {
            "Committing (amend)..."@
        } else {
            "Committing..."@
        },
{
    if amend {
        "Committing (amend)..."
    } else {
        "Committing..."
    }
}

/// The line printed before pushing, naming the branch when it is known.
pub fn pushing_line(branch: Option<&str>) -> (r: String)
    ensures
        r@ == match branch {
            Some(b) => "Pushing to "@ + b@ + "..."@,
            None => "Pushing..."@,
        },
{
    match branch {
        Some(b) => String::from_str("Pushing to ").concat(b).concat("..."),
        None => String::from_str("Pushing..."),
    }
}

/// `git push`.
pub fn commit_push_call() -> (r: GitCall)
    ensures
        call_view(r) == (seq!["push"@], "Pushed successfully"@),
{
    let mut a: Vec<String> = Vec::new();
    push_str(&mut a, "push");
    git_call(a, String::from_str("Pushed successfully"))
}

/// The commit command is `commit`, then `--amend` exactly when amending,
/// then `--no-verify` exactly when hooks are skipped (whether or not
/// amending), then `-m` and the message as given.
pub proof fn law_commit_flags(message: Seq<char>, amend: bool, skip_hooks: bool)
    ensures
        ({
            let a = commit_args_view(message, amend, skip_hooks);
            &&& a[0] == "commit"@
            &&& a.len() == 3 + (if amend { 1int } else { 0int }) + (if skip_hooks { 1int } else { 0int })
            &&& amend ==> a[1] == "--amend"@
            &&& skip_hooks ==> a[a.len() - 3] == "--no-verify"@ && a.contains("--no-verify"@)
            &&& a[a.len() - 2] == "-m"@
            &&& a[a.len() - 1] == message
            &&& message != "--no-verify"@ ==> (a.contains("--no-verify"@) <==> skip_hooks)
            &&& message != "--amend"@ ==> (a.contains("--amend"@) <==> amend)
        }),
{
    reveal_strlit("commit");
    reveal_strlit("--amend");
    reveal_strlit("--no-verify");
    reveal_strlit("-m");
    let a = commit_args_view(message, amend, skip_hooks);
    if skip_hooks {
        assert(a[a.len() - 3] == "--no-verify"@);
    }
    assert("commit"@ != "--no-verify"@ && "commit"@ != "--amend"@) by {
        assert("commit"@[0] != "--no-verify"@[0]);
        assert("commit"@[0] != "--amend"@[0]);
    }
    assert("-m"@ != "--no-verify"@ && "-m"@ != "--amend"@) by {
        assert("-m"@.len() != "--no-verify"@.len());
        assert("-m"@.len() != "--amend"@.len());
    }
    assert("--amend"@ != "--no-verify"@) by {
        assert("--amend"@.len() != "--no-verify"@.len());
    }
    if a.contains("--no-verify"@) {
        let k = choose|k: int| 0 <= k < a.len() && a[k] == "--no-verify"@;
        assert(k != 0);
    }
    if a.contains("--amend"@) {
        let k = choose|k: int| 0 <= k < a.len() && a[k] == "--amend"@;
        assert(k != 0);
    }
}

} // verus!
