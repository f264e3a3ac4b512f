//! `unstage`: which git command the flags ask for, and the commands behind
//! its menu.
use vstd::prelude::*;

use crate::plan::{call_view, call_with, literal_call, request_view, GitCall, Request};
use crate::stage::targets_or_dot;
use crate::text::{decimal, push_decimal, views};

verus! {

/// `unstage`: with no target and no flag, unstage everything in
/// non-interactive mode or ask; with `--all` unstage everything; else the
/// targets.
pub open spec fn unstage_request(targets: Seq<Seq<char>>, all: bool, non_interactive: bool) -> Option<(Seq<Seq<char>>, Seq<char>)> {
    if targets.len() == 0 && !all {
        if non_interactive {
            Some((seq!["restore"@, "--staged"@, "."@], "✓ All files unstaged (non-interactive mode)"@))
        } else {
            None
        }
    } else if all {
        Some((seq!["restore"@, "--staged"@, "."@], "✓ All files unstaged"@))
    } else {
        Some((seq!["restore"@, "--staged"@] + targets_or_dot(targets), "✓ Files unstaged"@))
    }
}

pub fn restore_stage(targets: &Vec<String>, all: bool, non_interactive: bool) -> (r: Request)
    ensures
        request_view(r) == unstage_request(views(targets@), all, non_interactive),
{
    if targets.len() == 0 && !all {
        if non_interactive {
            let c = literal_call(
                &["restore", "--staged", "."],
                "✓ All files unstaged (non-interactive mode)",
            );
            assert(call_view(c).0 =~= seq!["restore"@, "--staged"@, "."@]);
            Request::Run(c)
        } else {
            Request::Prompt
        }
    } else if all {
        let c = literal_call(&["restore", "--staged", "."], "✓ All files unstaged");
        assert(call_view(c).0 =~= seq!["restore"@, "--staged"@, "."@]);
        Request::Run(c)
    } else {
        let c = call_with(&["restore", "--staged"], targets, String::from_str("✓ Files unstaged"));
        assert(call_view(c).0 =~= seq!["restore"@, "--staged"@] + targets_or_dot(views(targets@)));
        Request::Run(c)
    }
}

/// What a pick from the unstage menu asks for.
pub enum UnstageChoice {
    Run(GitCall),
    /// Pick among the staged files.
    PickFiles,
    Nothing,
}

/// The action for a pick from the unstage menu: everything, or a choice of
/// files.
pub fn unstage_menu_choice(selection: usize) -> (r: UnstageChoice)
    ensures
        selection == 0 ==> (r matches UnstageChoice::Run(c) && call_view(c) == (seq!["restore"@, "--staged"@, "."@], "✓ All files unstaged"@)),
        selection == 1 ==> r is PickFiles,
        selection > 1 ==> r is Nothing,
{
    if selection == 0 {
        let c = literal_call(&["restore", "--staged", "."], "✓ All files unstaged");
        assert(call_view(c).0 =~= seq!["restore"@, "--staged"@, "."@]);
        UnstageChoice::Run(c)
    } else if selection == 1 {
        UnstageChoice::PickFiles
    } else {
        UnstageChoice::Nothing
    }
}

/// `git restore --staged <files>` for picked files (run in the repository
/// root).
pub fn unstage_files_call(files: &Vec<String>) -> (r: GitCall)
    ensures
        call_view(r) == (seq!["restore"@, "--staged"@] + views(files@), "✓ Unstaged "@ + decimal(
            files.len() as nat,
        ) + " file(s)"@),
{
    let mut m = String::from_str("✓ Unstaged ");
    push_decimal(&mut m, files.len() as u64);
    m.append(" file(s)");
    let c = call_with(&["restore", "--staged"], files, m);
    assert(call_view(c).0 =~= seq!["restore"@, "--staged"@] + views(files@));
    c
}

} // verus!
