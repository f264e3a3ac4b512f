//! `stage` and `unstage`: which git command the flags ask for, and the
//! commands behind their menus.
use vstd::prelude::*;

use crate::plan::{call_view, call_with, literal_call, request_view, GitCall, Request};
use crate::text::{decimal, push_decimal, views};

verus! {

/// The files a command names: the given ones, or `.` when none is given.
pub open spec fn targets_or_dot(targets: Seq<Seq<char>>) -> Seq<Seq<char>> {
    if targets.len() == 0 {
        seq!["."@]
    } else {
        targets
    }
}

/// `stage`: ask when no target and no flag is given; else stage everything
/// (`--all`), the tracked files (`--tracked`), or the targets.
pub open spec fn stage_request(targets: Seq<Seq<char>>, all: bool, only_tracked: bool) -> Option<(Seq<Seq<char>>, Seq<char>)> {
    if targets.len() == 0 && !all && !only_tracked {
        None
    } else if all {
        Some((seq!["add"@, "-A"@], "✓ Staged all files"@))
    } else if only_tracked {
        Some((seq!["add"@, "-u"@], "✓ Staged tracked files"@))
    } else {
        Some((seq!["add"@] + targets_or_dot(targets), "✓ Staged files"@))
    }
}

pub fn stage_targets(targets: &Vec<String>, all: bool, only_tracked: bool) -> (r: Request)
    ensures
        request_view(r) == stage_request(views(targets@), all, only_tracked),
{
    if targets.len() == 0 && !all && !only_tracked {
        Request::Prompt
    } else if all {
        let c = literal_call(&["add", "-A"], "✓ Staged all files");
        assert(call_view(c).0 =~= seq!["add"@, "-A"@]);
        Request::Run(c)
    } else if only_tracked {
        let c = literal_call(&["add", "-u"], "✓ Staged tracked files");
        assert(call_view(c).0 =~= seq!["add"@, "-u"@]);
        Request::Run(c)
    } else {
        let c = call_with(&["add"], targets, String::from_str("✓ Staged files"));
        assert(call_view(c).0 =~= seq!["add"@] + targets_or_dot(views(targets@)));
        Request::Run(c)
    }
}

/// What a pick from the stage menu asks for.
pub enum StageChoice {
    Run(GitCall),
    /// Pick among the unstaged files.
    PickFiles,
    Nothing,
}

/// The action for a pick from the stage menu: all files, tracked files, or
/// a choice of files.
pub fn stage_menu_choice(selection: usize) -> (r: StageChoice)
    ensures
        selection == 0 ==> (r matches StageChoice::Run(c) && call_view(c) == (seq!["add"@, "-A"@], "✓ Staged all files"@)),
        selection == 1 ==> (r matches StageChoice::Run(c) && call_view(c) == (seq!["add"@, "-u"@], "✓ Staged tracked files"@)),
        selection == 2 ==> r is PickFiles,
        selection > 2 ==> r is Nothing,
{
    if selection == 0 {
        let c = literal_call(&["add", "-A"], "✓ Staged all files");
        assert(call_view(c).0 =~= seq!["add"@, "-A"@]);
        StageChoice::Run(c)
    } else if selection == 1 {
        let c = literal_call(&["add", "-u"], "✓ Staged tracked files");
        assert(call_view(c).0 =~= seq!["add"@, "-u"@]);
        StageChoice::Run(c)
    } else if selection == 2 {
        StageChoice::PickFiles
    } else {
        StageChoice::Nothing
    }
}

/// `git add <files>` for picked files (run in the repository root).
pub fn stage_files_call(files: &Vec<String>) -> (r: GitCall)
    ensures
        call_view(r) == (seq!["add"@] + views(files@), "✓ Staged "@ + decimal(files.len() as nat)
            + " file(s)"@),
{
    let mut m = String::from_str("✓ Staged ");
    push_decimal(&mut m, files.len() as u64);
    m.append(" file(s)");
    let c = call_with(&["add"], files, m);
    assert(call_view(c).0 =~= seq!["add"@] + views(files@));
    c
}

} // verus!
