//! `reset`: which kind of reset the flags ask for, and the git commands of
//! each kind.
use vstd::prelude::*;

use crate::status::{
    entry_views, get_staged_files, get_unstaged_files, get_untracked_files, paths_where,
    staged_pred, status_x, status_y, unstaged_pred, untracked_pred, EntryView,
};
use crate::text::{copy_string, first_match, lemma_first_match_at, push_str, views};

verus! {

/// The kinds of reset.
#[derive(Clone, Copy, PartialEq, Eq, Structural, Debug)]
pub enum ResetMode {
    All,
    Staged,
    Unstaged,
    TrackedFiles,
    Untracked,
    Custom,
}

/// What `reset` does with its flags.
pub enum ResetRequest {
    /// Ask which kind of reset.
    Prompt,
    /// Reset; `note` when the default reset was taken in non-interactive mode.
    Run { mode: ResetMode, note: bool },
}

/// With no flag, reset everything in non-interactive mode (with a note) or
/// ask; else the first flag given, in the order all, staged, unstaged,
/// tracked, untracked.
pub fn run_reset(
    all: bool,
    staged: bool,
    unstaged: bool,
    only_tracked: bool,
    untracked: bool,
    non_interactive: bool,
) -> (r: ResetRequest)
    ensures
        !all && !staged && !unstaged && !only_tracked && !untracked ==> if non_interactive {
            r == (ResetRequest::Run { mode: ResetMode::All, note: true })
        } else {
            r is Prompt
        },
        all ==> r == (ResetRequest::Run { mode: ResetMode::All, note: false }),
        !all && staged ==> r == (ResetRequest::Run { mode: ResetMode::Staged, note: false }),
        !all && !staged && unstaged ==> r == (ResetRequest::Run { mode: ResetMode::Unstaged, note: false }),
        !all && !staged && !unstaged && only_tracked ==> r == (ResetRequest::Run { mode: ResetMode::TrackedFiles, note: false }),
        !all && !staged && !unstaged && !only_tracked && untracked ==> r == (ResetRequest::Run { mode: ResetMode::Untracked, note: false }),
{
    if !all && !staged && !unstaged && !only_tracked && !untracked {
        if non_interactive {
            ResetRequest::Run { mode: ResetMode::All, note: true }
        } else {
            ResetRequest::Prompt
        }
    } else if all {
        ResetRequest::Run { mode: ResetMode::All, note: false }
    } else if staged {
        ResetRequest::Run { mode: ResetMode::Staged, note: false }
    } else if unstaged {
        ResetRequest::Run { mode: ResetMode::Unstaged, note: false }
    } else if only_tracked {
        ResetRequest::Run { mode: ResetMode::TrackedFiles, note: false }
    } else {
        ResetRequest::Run { mode: ResetMode::Untracked, note: false }
    }
}

/// The kind of reset picked from the menu.
pub fn reset_menu_mode(selection: usize) -> (r: Option<ResetMode>)
    ensures
        r == if selection == 0 {
            Some(ResetMode::All)
        } else if selection == 1 {
            Some(ResetMode::Staged)
        } else if selection == 2 {
            Some(ResetMode::Unstaged)
        } else if selection == 3 {
            Some(ResetMode::TrackedFiles)
        } else if selection == 4 {
            Some(ResetMode::Untracked)
        } else if selection == 5 {
            Some(ResetMode::Custom)
        } else {
            None::<ResetMode>
        },
{
    if selection == 0 {
        Some(ResetMode::All)
    } else if selection == 1 {
        Some(ResetMode::Staged)
    } else if selection == 2 {
        Some(ResetMode::Unstaged)
    } else if selection == 3 {
        Some(ResetMode::TrackedFiles)
    } else if selection == 4 {
        Some(ResetMode::Untracked)
    } else if selection == 5 {
        Some(ResetMode::Custom)
    } else {
        None
    }
}

/// The git commands of a reset (in order) and the line printed after them
/// (printed alone when there is nothing to reset).
pub struct ResetPlan {
    pub calls: Vec<Vec<String>>,
    pub message: String,
}

pub open spec fn plan_view(p: ResetPlan) -> (Seq<Seq<Seq<char>>>, Seq<char>) {
    (p.calls@.map_values(|c: Vec<String>| views(c@)), p.message@)
}

fn args_of(parts: &[&str]) -> (r: Vec<String>)
    ensures
        views(r@) == parts@.map_values(|a: &str| a@),
{
    let mut v: Vec<String> = Vec::new();
    let mut i: usize = 0;
    while i < parts.len()
        invariant
            i <= parts.len(),
            views(v@) == parts@.take(i as int).map_values(|a: &str| a@),
        decreases parts.len() - i,
    {
        push_str(&mut v, parts[i]);
        assert(parts@.take(i + 1).map_values(|a: &str| a@) =~= parts@.take(i as int).map_values(
            |a: &str| a@,
        ).push(parts@[i as int]@));
        i += 1;
    }
    assert(parts@.take(parts.len() as int) =~= parts@);
    v
}

fn one_call(parts: &[&str], message: &str) -> (r: ResetPlan)
    ensures
        plan_view(r) == (seq![parts@.map_values(|a: &str| a@)], message@),
{
    let mut calls: Vec<Vec<String>> = Vec::new();
    calls.push(args_of(parts));
    let r = ResetPlan { calls, message: String::from_str(message) };
    assert(plan_view(r).0 =~= seq![parts@.map_values(|a: &str| a@)]);
    r
}

fn no_call(message: &str) -> (r: ResetPlan)
    ensures
        plan_view(r) == (Seq::<Seq<Seq<char>>>::empty(), message@),
{
    let r = ResetPlan { calls: Vec::new(), message: String::from_str(message) };
    assert(plan_view(r).0 =~= Seq::<Seq<Seq<char>>>::empty());
    r
}

/// `git reset --hard`, then `git clean -fd`.
pub fn reset_all() -> (r: ResetPlan)
    ensures
        plan_view(r) == (seq![seq!["reset"@, "--hard"@], seq!["clean"@, "-fd"@]], "✓ All files reset."@),
{
    let mut calls: Vec<Vec<String>> = Vec::new();
    calls.push(args_of(&["reset", "--hard"]));
    calls.push(args_of(&["clean", "-fd"]));
    let r = ResetPlan { calls, message: String::from_str("✓ All files reset.") };
    assert(plan_view(r).0 =~~= seq![seq!["reset"@, "--hard"@], seq!["clean"@, "-fd"@]]);
    r
}

/// `git restore --staged .` when something is staged.
pub fn reset_staged(entries: &Vec<(String, String)>) -> (r: ResetPlan)
    ensures
        paths_where(entry_views(entries@), staged_pred()).len() == 0 ==> plan_view(r) == (
            Seq::<Seq<Seq<char>>>::empty(),
            "No staged files to reset."@,
        ),
        paths_where(entry_views(entries@), staged_pred()).len() > 0 ==> plan_view(r) == (
            seq![seq!["restore"@, "--staged"@, "."@]],
            "✓ Staged files reset."@,
        ),
{
    if get_staged_files(entries).len() == 0 {
        no_call("No staged files to reset.")
    } else {
        let r = one_call(&["restore", "--staged", "."], "✓ Staged files reset.");
        assert(plan_view(r).0 =~~= seq![seq!["restore"@, "--staged"@, "."@]]);
        r
    }
}

/// `git restore .` when something is changed but not staged.
pub fn reset_unstaged(entries: &Vec<(String, String)>) -> (r: ResetPlan)
    ensures
        paths_where(entry_views(entries@), unstaged_pred()).len() == 0 ==> plan_view(r) == (
            Seq::<Seq<Seq<char>>>::empty(),
            "No unstaged changes to reset."@,
        ),
        paths_where(entry_views(entries@), unstaged_pred()).len() > 0 ==> plan_view(r) == (
            seq![seq!["restore"@, "."@]],
            "✓ Unstaged changes reset."@,
        ),
{
    if get_unstaged_files(entries).len() == 0 {
        no_call("No unstaged changes to reset.")
    } else {
        let r = one_call(&["restore", "."], "✓ Unstaged changes reset.");
        assert(plan_view(r).0 =~~= seq![seq!["restore"@, "."@]]);
        r
    }
}

/// `git reset --hard`.
pub fn reset_tracked() -> (r: ResetPlan)
    ensures
        plan_view(r) == (seq![seq!["reset"@, "--hard"@]], "✓ Tracked files reset."@),
{
    let r = one_call(&["reset", "--hard"], "✓ Tracked files reset.");
    assert(plan_view(r).0 =~~= seq![seq!["reset"@, "--hard"@]]);
    r
}

/// `git clean -fd` when there are untracked files.
pub fn reset_untracked(entries: &Vec<(String, String)>) -> (r: ResetPlan)
    ensures
        paths_where(entry_views(entries@), untracked_pred()).len() == 0 ==> plan_view(r) == (
            Seq::<Seq<Seq<char>>>::empty(),
            "No untracked files to reset."@,
        ),
        paths_where(entry_views(entries@), untracked_pred()).len() > 0 ==> plan_view(r) == (
            seq![seq!["clean"@, "-fd"@]],
            "✓ Untracked files removed."@,
        ),
{
    if get_untracked_files(entries).len() == 0 {
        no_call("No untracked files to reset.")
    } else {
        let r = one_call(&["clean", "-fd"], "✓ Untracked files removed.");
        assert(plan_view(r).0 =~~= seq![seq!["clean"@, "-fd"@]]);
        r
    }
}

/// The predicate "is the entry for `path`".
pub open spec fn entry_for(path: Seq<char>) -> spec_fn(EntryView) -> bool {
    |e: EntryView| e.1 == path
}

/// The status of `path`: that of its first entry, or empty.
pub open spec fn status_of(es: Seq<EntryView>, path: Seq<char>) -> Seq<char> {
    let i = first_match(es, entry_for(path));
    if i >= 0 {
        es[i].0
    } else {
        Seq::<char>::empty()
    }
}

/// The commands that reset one picked file, by its status: an untracked file
/// is removed; otherwise a staged change is unstaged and a worktree change
/// restored.
pub open spec fn reset_file_calls(st: Seq<char>, file: Seq<char>) -> Seq<Seq<Seq<char>>> {
    let x = status_x(st);
    let y = status_y(st);
    if x == '?' && y == '?' {
        seq![seq!["clean"@, "-f"@, file]]
    } else {
        (if x != ' ' {
            seq![seq!["restore"@, "--staged"@, file]]
        } else {
            seq![]
        }) + (if y != ' ' && y != '?' {
            seq![seq!["restore"@, file]]
        } else {
            seq![]
        })
    }
}

fn find_entry(entries: &Vec<(String, String)>, file: &String) -> (r: Option<usize>)
    ensures
        match r {
            Some(k) => k < entries.len() && first_match(entry_views(entries@), entry_for(file@)) == k,
            None => first_match(entry_views(entries@), entry_for(file@)) == -1,
        },
{
    let ghost ev = entry_views(entries@);
    let mut i: usize = 0;
    while i < entries.len()
        invariant
            i <= entries.len(),
            ev == entry_views(entries@),
            forall|j: int| 0 <= j < i ==> !entry_for(file@)(#[trigger] ev[j]),
        decreases entries.len() - i,
    {
        if entries[i].1 == *file {
            proof {
                lemma_first_match_at(ev, entry_for(file@), i as int);
            }
            return Some(i);
        }
        i += 1;
    }
    proof {
        lemma_first_match_at(ev, entry_for(file@), ev.len() as int);
    }
    None
}

/// The commands (run in the repository root) that reset one picked file.
pub fn reset_custom_calls(entries: &Vec<(String, String)>, file: &String) -> (r: Vec<Vec<String>>)
    ensures
        r@.map_values(|c: Vec<String>| views(c@)) == reset_file_calls(
            status_of(entry_views(entries@), file@),
            file@,
        ),
{
    let ghost ev = entry_views(entries@);
    let found = find_entry(entries, file);
    let (x, y) = match found {
        Some(k) => {
            let v = crate::text::to_chars(entries[k].0.as_str());
            (
                if v.len() > 0 {
                    v[0]
                } else {
                    ' '
                },
                if v.len() > 1 {
                    v[1]
                } else {
                    ' '
                },
            )
        },
        None => (' ', ' '),
    };
    let ghost st = status_of(ev, file@);
    assert(x == status_x(st) && y == status_y(st));
    let mut calls: Vec<Vec<String>> = Vec::new();
    if x == '?' && y == '?' {
        let mut c = args_of(&["clean", "-f"]);
        crate::text::push_string(&mut c, copy_string(file));
        calls.push(c);
    } else {
        if x != ' ' {
            let mut c = args_of(&["restore", "--staged"]);
            crate::text::push_string(&mut c, copy_string(file));
            calls.push(c);
        }
        if y != ' ' && y != '?' {
            let mut c = args_of(&["restore"]);
            crate::text::push_string(&mut c, copy_string(file));
            calls.push(c);
        }
    }
    assert(calls@.map_values(|c: Vec<String>| views(c@)) =~~= reset_file_calls(st, file@));
    calls
}

// ---------------------------------------------------------------------------
// Laws
// ---------------------------------------------------------------------------

/// Resetting a picked file touches that file alone, and only an untracked
/// file is ever deleted (`git clean`).
pub proof fn law_reset_file_touches_only_file(st: Seq<char>, file: Seq<char>)
    ensures
        forall|i: int|
            0 <= i < reset_file_calls(st, file).len() ==> (#[trigger] reset_file_calls(st, file)[i]).last()
                == file,
        forall|i: int|
            0 <= i < reset_file_calls(st, file).len() && (#[trigger] reset_file_calls(st, file)[i])[0]
                == "clean"@ ==> status_x(st) == '?' && status_y(st) == '?',
{
    reveal_strlit("clean");
    reveal_strlit("restore");
    let calls = reset_file_calls(st, file);
    assert forall|i: int| 0 <= i < calls.len() && (#[trigger] calls[i])[0] == "clean"@ implies status_x(st)
        == '?' && status_y(st) == '?' by {
        if !(status_x(st) == '?' && status_y(st) == '?') {
            assert(calls[i][0] == "restore"@);
            assert("restore"@[0] != "clean"@[0]);
        }
    }
}

/// Resetting a picked file undoes every change its status shows: an
/// untracked file (`??`) is removed with `git clean -f` and nothing else
/// runs; otherwise a change in the index column is unstaged with
/// `git restore --staged`, and any change in the worktree column (`M`, `D`
/// or another letter, but not blank) is restored with `git restore`, the
/// index first.
pub proof fn law_reset_file_undoes_each_column(st: Seq<char>, file: Seq<char>)
    ensures
        ({
            let x = status_x(st);
            let y = status_y(st);
            let calls = reset_file_calls(st, file);
            let unstage = seq!["restore"@, "--staged"@, file];
            let restore = seq!["restore"@, file];
            &&& x == '?' && y == '?' ==> calls == seq![seq!["clean"@, "-f"@, file]]
            &&& !(x == '?' && y == '?') && x != ' ' ==> calls[0] == unstage
            &&& !(x == '?' && y == '?') && y != ' ' && y != '?' ==> calls.last() == restore
            &&& !(x == '?' && y == '?') ==> calls.len() == (if x != ' ' { 1int } else { 0int }) + (
                if y != ' ' && y != '?' { 1int } else { 0int })
        }),
{
}

} // verus!
