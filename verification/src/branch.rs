//! `branch`: the checks on a branch name, and the commands and menu of the
//! branch workflow.
use vstd::prelude::*;

use crate::error::SupgitError;
use crate::plan::{call_result_view, call_view, git_call, outcome, GitCall, GitOutput};
use crate::text::{
    contains, copy_string, has_whitespace, push_str, push_string, str_contains, str_has_whitespace,
    to_chars, trim, trim_string, views,
};

verus! {

/// `create_branch`: refused for a blank name or one with whitespace inside;
/// otherwise `git checkout -b <name>` on the trimmed name.
pub open spec fn create_branch_result(name: Seq<char>) -> Result<(Seq<Seq<char>>, Seq<char>), SupgitError> {
    let n = trim(name);
    if n.len() == 0 {
        Err(SupgitError::EmptyBranchName)
    } else if has_whitespace(n) {
        Err(SupgitError::BranchNameWhitespace)
    } else {
        Ok((seq!["checkout"@, "-b"@, n], "✓ Created and switched to branch '"@ + n + "'"@))
    }
}

fn checkout_new(name: String) -> (r: GitCall)
    ensures
        call_view(r) == (seq!["checkout"@, "-b"@, name@], "✓ Created and switched to branch '"@
            + name@ + "'"@),
{
    let mut args: Vec<String> = Vec::new();
    push_str(&mut args, "checkout");
    push_str(&mut args, "-b");
    let message = String::from_str("✓ Created and switched to branch '").concat(name.as_str()).concat(
        "'",
    );
    push_string(&mut args, name);
    let r = git_call(args, message);
    assert(call_view(r).0 =~= seq!["checkout"@, "-b"@, name@]);
    r
}

pub fn create_branch(branch_name: &str) -> (r: Result<GitCall, SupgitError>)
    ensures
        call_result_view(r) == create_branch_result(branch_name@),
{
    let n = trim_string(branch_name);
    if n.as_str().is_empty() {
        return Err(SupgitError::EmptyBranchName);
    }
    if str_has_whitespace(n.as_str()) {
        return Err(SupgitError::BranchNameWhitespace);
    }
    Ok(checkout_new(n))
}

/// `delete_branch`: refused (with the text shown) for a blank name, for the
/// current branch and for a branch not in `branches`; otherwise
/// `git branch -d <name>` on the trimmed name.
pub open spec fn delete_branch_result(name: Seq<char>, current: Seq<char>, branches: Seq<Seq<char>>) -> Result<(Seq<Seq<char>>, Seq<char>), Seq<char>> {
    let n = trim(name);
    if n.len() == 0 {
        Err("branch name cannot be empty"@)
    } else if n == current {
        Err("cannot delete the current branch '"@ + n + "'; switch to another branch first"@)
    } else if !branches.contains(n) {
        Err("branch '"@ + n + "' does not exist"@)
    } else {
        Ok((seq!["branch"@, "-d"@, n], "✓ Deleted branch '"@ + n + "'"@))
    }
}

fn contains_string(v: &Vec<String>, s: &String) -> (r: bool)
    ensures
        r == views(v@).contains(s@),
{
    let mut i: usize = 0;
    while i < v.len()
        invariant
            i <= v.len(),
            forall|j: int| 0 <= j < i ==> v@[j]@ != s@,
        decreases v.len() - i,
    {
        if v[i] == *s {
            assert(views(v@)[i as int] == s@);
            return true;
        }
        i += 1;
    }
    proof {
        if views(v@).contains(s@) {
            let j = choose|j: int| 0 <= j < views(v@).len() && views(v@)[j] == s@;
            assert(v@[j]@ == s@);
        }
    }
    false
}

pub fn delete_branch(branch_name: &str, current: &str, branches: &Vec<String>) -> (r: Result<
    GitCall,
    SupgitError,
>)
    ensures
        outcome(r) == delete_branch_result(branch_name@, current@, views(branches@)),
{
    let n = trim_string(branch_name);
    if n.as_str().is_empty() {
        return Err(SupgitError::EmptyBranchName);
    }
    let cur = String::from_str(current);
    if n == cur {
        return Err(SupgitError::CannotDeleteCurrentBranch(n));
    }
    if !contains_string(branches, &n) {
        return Err(SupgitError::BranchNotFound(n));
    }
    let mut args: Vec<String> = Vec::new();
    push_str(&mut args, "branch");
    push_str(&mut args, "-d");
    let message = String::from_str("✓ Deleted branch '").concat(n.as_str()).concat("'");
    push_string(&mut args, n);
    let r = git_call(args, message);
    assert(call_view(r).0 =~= delete_branch_result(branch_name@, current@, views(branches@))->Ok_0.0);
    Ok(r)
}


// ---------------------------------------------------------------------------
// Interactive deletion
// ---------------------------------------------------------------------------

/// The branches that can be deleted: all but the current one. Refused when
/// none is left.
pub fn deletable_branches(branches: &Vec<String>, current: &str) -> (r: Result<Vec<String>, SupgitError>)
    ensures
        views(branches@).filter(|b: Seq<char>| b != current@).len() == 0 ==> r matches Err(
            SupgitError::NoDeletableBranches,
        ),
        views(branches@).filter(|b: Seq<char>| b != current@).len() > 0 ==> r is Ok && views(
            r->Ok_0@,
        ) == views(branches@).filter(|b: Seq<char>| b != current@),
{
    let ghost bv = views(branches@);
    let ghost p = |b: Seq<char>| b != current@;
    let cur = String::from_str(current);
    let mut out: Vec<String> = Vec::new();
    let mut i: usize = 0;
    while i < branches.len()
        invariant
            i <= branches.len(),
            bv == views(branches@),
            cur@ == current@,
            p == (|b: Seq<char>| b != current@),
            views(out@) == bv.take(i as int).filter(p),
        decreases branches.len() - i,
    {
        reveal_with_fuel(Seq::filter, 1);
        assert(bv.take(i + 1).drop_last() =~= bv.take(i as int));
        assert(bv.take(i + 1).last() == branches@[i as int]@);
        let ghost old_out = out@;
        if branches[i] != cur {
            push_string(&mut out, copy_string(&branches[i]));
        }
        i += 1;
    }
    assert(bv.take(branches.len() as int) =~= bv);
    if out.len() == 0 {
        return Err(SupgitError::NoDeletableBranches);
    }
    Ok(out)
}

/// How `git branch -d` ended.
pub enum DeleteOutcome {
    /// Deleted; the line to print.
    Deleted(String),
    /// Refused because the branch is not fully merged: offer to force it.
    NotFullyMerged,
}

/// The outcome of `git branch -d <branch>` from its output: an unmerged
/// branch can be forced; any other failure is an error.
pub fn branch_delete_outcome(branch: &str, output: &GitOutput) -> (r: Result<DeleteOutcome, SupgitError>)
    ensures
        output.success ==> (r matches Ok(DeleteOutcome::Deleted(m)) && m@ == "✓ Deleted branch '"@
            + branch@ + "'"@),
        !output.success && contains(output.stderr@, "not fully merged"@) ==> r matches Ok(
            DeleteOutcome::NotFullyMerged,
        ),
        !output.success && !contains(output.stderr@, "not fully merged"@) ==> (r matches Err(
            SupgitError::BranchDeleteFailed(b, m),
        ) && b@ == branch@ && m@ == trim(output.stderr@)),
{
    if !output.success && str_contains(output.stderr.as_str(), "not fully merged") {
        Ok(DeleteOutcome::NotFullyMerged)
    } else if !output.success {
        Err(
            SupgitError::BranchDeleteFailed(
                String::from_str(branch),
                trim_string(output.stderr.as_str()),
            ),
        )
    } else {
        Ok(
            DeleteOutcome::Deleted(
                String::from_str("✓ Deleted branch '").concat(branch).concat("'"),
            ),
        )
    }
}

/// `git branch -D <branch>`.
pub fn force_delete_branch(branch: &str) -> (r: GitCall)
    ensures
        call_view(r) == (seq!["branch"@, "-D"@, branch@], "✓ Force deleted branch '"@ + branch@
            + "'"@),
{
    let mut args: Vec<String> = Vec::new();
    push_str(&mut args, "branch");
    push_str(&mut args, "-D");
    push_str(&mut args, branch);
    let r = git_call(args, String::from_str("✓ Force deleted branch '").concat(branch).concat("'"));
    assert(call_view(r).0 =~= seq!["branch"@, "-D"@, branch@]);
    r
}

// ---------------------------------------------------------------------------
// The branch menu
// ---------------------------------------------------------------------------

/// The branch menu: each branch (the current one marked), then creating and
/// deleting.
pub open spec fn branch_menu(branches: Seq<Seq<char>>, current: Seq<char>) -> Seq<Seq<char>> {
    branches.map_values(
        |b: Seq<char>|
            if b == current {
                b + " (current)"@
            } else {
                b
            },
    ) + seq!["Create new branch..."@, "Delete a branch..."@]
}

pub fn branch_menu_items(branches: &Vec<String>, current: &str) -> (r: Vec<String>)
    ensures
        views(r@) == branch_menu(views(branches@), current@),
{
    let ghost bv = views(branches@);
    let ghost f = |b: Seq<char>|
        if b == current@ {
            b + " (current)"@
        } else {
            b
        };
    let cur = String::from_str(current);
    let mut out: Vec<String> = Vec::new();
    let mut i: usize = 0;
    while i < branches.len()
        invariant
            i <= branches.len(),
            bv == views(branches@),
            cur@ == current@,
            f == (|b: Seq<char>|
                if b == current@ {
                    b + " (current)"@
                } else {
                    b
                }),
            views(out@) == bv.take(i as int).map_values(f),
        decreases branches.len() - i,
    {
        let item = if branches[i] == cur {
            copy_string(&branches[i]).concat(" (current)")
        } else {
            copy_string(&branches[i])
        };
        let ghost old_out = out@;
        push_string(&mut out, item);
        assert(bv.take(i + 1).map_values(f) =~= bv.take(i as int).map_values(f).push(f(bv[i as int])));
        i += 1;
    }
    assert(bv.take(branches.len() as int) =~= bv);
    push_str(&mut out, "Create new branch...");
    push_str(&mut out, "Delete a branch...");
    assert(views(out@) =~= branch_menu(bv, current@));
    out
}

/// What a pick from the branch menu asks for.
pub enum BranchAction {
    /// Ask for a name and create that branch.
    Create,
    /// Delete a branch, interactively.
    Delete,
    /// The picked branch is the current one; the line to print.
    AlreadyOn(String),
    /// Check out the picked branch.
    Checkout(GitCall),
}

/// The action for a pick from the branch menu.
pub fn branch_menu_action(selection: usize, branches: &Vec<String>, current: &str) -> (r: BranchAction)
    requires
        selection <= branches.len() + 1,
    ensures
        selection == branches.len() ==> r is Create,
        selection == branches.len() + 1 ==> r is Delete,
        selection < branches.len() && branches@[selection as int]@ == current@ ==> (r matches BranchAction::AlreadyOn(m) && m@ == "Already on branch '"@ + current@ + "'."@),
        selection < branches.len() && branches@[selection as int]@ != current@ ==> (r matches BranchAction::Checkout(c) && call_view(c) == (seq![
            "checkout"@,
            branches@[selection as int]@,
        ], "✓ Switched to branch '"@ + branches@[selection as int]@ + "'"@)),
{
    if selection == branches.len() {
        return BranchAction::Create;
    }
    if selection > branches.len() {
        return BranchAction::Delete;
    }
    let b = &branches[selection];
    if *b == String::from_str(current) {
        return BranchAction::AlreadyOn(
            String::from_str("Already on branch '").concat(current).concat("'."),
        );
    }
    let mut args: Vec<String> = Vec::new();
    push_str(&mut args, "checkout");
    push_str(&mut args, b.as_str());
    let r = git_call(args, String::from_str("✓ Switched to branch '").concat(b.as_str()).concat("'"));
    assert(call_view(r).0 =~= seq!["checkout"@, branches@[selection as int]@]);
    BranchAction::Checkout(r)
}

/// `s` with every space made a hyphen (`str::replace(' ', "-")`).
pub open spec fn spaces_to_hyphens(s: Seq<char>) -> Seq<char> {
    s.map_values(
        |c: char|
            if c == ' ' {
                '-'
            } else {
                c
            },
    )
}

/// A branch typed into the menu: refused when the input is empty; otherwise
/// trimmed, its spaces made hyphens, and created and checked out.
pub fn new_branch_from_input(input: &str) -> (r: Result<GitCall, SupgitError>)
    ensures
        input@.len() == 0 ==> r matches Err(SupgitError::EmptyBranchName),
        input@.len() > 0 ==> r is Ok && call_view(r->Ok_0) == (seq![
            "checkout"@,
            "-b"@,
            spaces_to_hyphens(trim(input@)),
        ], "✓ Created and switched to branch '"@ + spaces_to_hyphens(trim(input@)) + "'"@),
{
    if input.is_empty() {
        return Err(SupgitError::EmptyBranchName);
    }
    let t = to_chars(trim_string(input).as_str());
    let mut name = String::new();
    let mut i: usize = 0;
    while i < t.len()
        invariant
            i <= t.len(),
            name@ == spaces_to_hyphens(t@.take(i as int)),
        decreases t.len() - i,
    {
        let c = if t[i] == ' ' {
            '-'
        } else {
            t[i]
        };
        crate::text::push_char(&mut name, c);
        assert(spaces_to_hyphens(t@.take(i + 1)) =~= spaces_to_hyphens(t@.take(i as int)).push(c));
        i += 1;
    }
    assert(t@.take(t.len() as int) =~= t@);
    Ok(checkout_new(name))
}

// ---------------------------------------------------------------------------
// Laws
// ---------------------------------------------------------------------------

/// A branch is only ever created under a name that is trimmed, not empty and
/// free of whitespace.
pub proof fn law_created_branch_name_valid(name: Seq<char>)
    ensures
        create_branch_result(name) is Ok ==> {
            let n = create_branch_result(name)->Ok_0.0[2];
            &&& n == trim(name)
            &&& n.len() > 0
            &&& !has_whitespace(n)
        },
        create_branch_result(name) is Err <==> (trim(name).len() == 0 || has_whitespace(trim(name))),
{
}

/// `git branch -d` is only ever asked for a listed branch other than the
/// current one.
pub proof fn law_delete_spares_current(name: Seq<char>, current: Seq<char>, branches: Seq<Seq<char>>)
    ensures
        delete_branch_result(name, current, branches) is Ok ==> {
            let n = delete_branch_result(name, current, branches)->Ok_0.0[2];
            &&& n != current
            &&& branches.contains(n)
        },
{
}

/// The branches offered for deletion are exactly the listed ones other than
/// the current branch.
pub proof fn law_deletable_excludes_current(branches: Seq<Seq<char>>, current: Seq<char>)
    ensures
        !branches.filter(|b: Seq<char>| b != current).contains(current),
        forall|x: Seq<char>|
            x != current && #[trigger] branches.contains(x) ==> branches.filter(|b: Seq<char>| b != current).contains(x),
{
    let f = branches.filter(|b: Seq<char>| b != current);
    if f.contains(current) {
        let i = choose|i: int| 0 <= i < f.len() && f[i] == current;
        branches.lemma_filter_pred(|b: Seq<char>| b != current, i);
    }
    assert forall|x: Seq<char>| x != current && #[trigger] branches.contains(x) implies f.contains(x) by {
        let i = choose|i: int| 0 <= i < branches.len() && branches[i] == x;
        branches.lemma_filter_contains(|b: Seq<char>| b != current, i);
    }
}

/// What `branch` does with its options.
pub enum BranchRequest {
    Create(String),
    Delete(String),
    /// No option: the interactive menu.
    Menu,
}

/// The option of `branch` that acts: `--create` before `--delete`; with
/// neither, the menu.
pub fn branch_request(create: Option<String>, delete: Option<String>) -> (r: BranchRequest)
    ensures
        create is Some ==> r == BranchRequest::Create(create->0),
        create is None && delete is Some ==> r == BranchRequest::Delete(delete->0),
        create is None && delete is None ==> r is Menu,
{
    match create {
        Some(n) => BranchRequest::Create(n),
        None => match delete {
            Some(n) => BranchRequest::Delete(n),
            None => BranchRequest::Menu,
        },
    }
}

} // verus!
