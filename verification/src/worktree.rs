//! `worktree`: reading `git worktree list --porcelain`, and the worktree
//! commands.
use vstd::prelude::*;

use crate::error::SupgitError;
use crate::plan::{call_view, git_call, GitCall};
use crate::status::{get_branches, trimmed_nonempty_lines};
use crate::text::{
    copy_string, from_chars, lines, lines_of, opt_view, push_str, starts_with, starts_with_exec,
    to_chars, trim, trim_bounds, views,
};

verus! {

/// A worktree: its path, and the branch or the commit it has checked out.
pub struct WorktreeInfo {
    pub path: String,
    pub branch: Option<String>,
    pub head: Option<String>,
}

pub type WorktreeView = (Seq<char>, Option<Seq<char>>, Option<Seq<char>>);

pub open spec fn worktree_view(w: WorktreeInfo) -> WorktreeView {
    (w.path@, opt_view(w.branch), opt_view(w.head))
}

pub open spec fn worktree_views(ws: Seq<WorktreeInfo>) -> Seq<WorktreeView> {
    ws.map_values(|w: WorktreeInfo| worktree_view(w))
}

/// The reading state: the worktrees finished so far and the one being read.
pub type ListingState = (Seq<WorktreeView>, Option<WorktreeView>);

/// Reads one line: a blank line finishes the current worktree; `worktree`
/// starts a new one (dropping an unfinished one); `branch` and `HEAD` fill
/// in the current one. Values are trimmed.
pub open spec fn worktree_step(st: ListingState, line: Seq<char>) -> ListingState {
    let l = trim(line);
    if l.len() == 0 {
        match st.1 {
            Some(w) => (st.0.push(w), None),
            None => st,
        }
    } else if starts_with(l, "worktree "@) {
        (st.0, Some((trim(l.skip(9)), None, None)))
    } else if starts_with(l, "branch "@) {
        match st.1 {
            Some(w) => (st.0, Some((w.0, Some(trim(l.skip(7))), w.2))),
            None => st,
        }
    } else if starts_with(l, "HEAD "@) {
        match st.1 {
            Some(w) => (st.0, Some((w.0, w.1, Some(trim(l.skip(5)))))),
            None => st,
        }
    } else {
        st
    }
}

pub open spec fn listing_state(ls: Seq<Seq<char>>) -> ListingState
    decreases ls.len(),
{
    if ls.len() == 0 {
        (seq![], None)
    } else {
        worktree_step(listing_state(ls.drop_last()), ls.last())
    }
}

/// The worktrees a listing describes: the finished ones, then the one being
/// read at the end.
pub open spec fn worktrees_of(ls: Seq<Seq<char>>) -> Seq<WorktreeView> {
    let st = listing_state(ls);
    match st.1 {
        Some(w) => st.0.push(w),
        None => st.0,
    }
}

pub open spec fn opt_worktree_view(o: Option<WorktreeInfo>) -> Option<WorktreeView> {
    match o {
        Some(w) => Some(worktree_view(w)),
        None => None,
    }
}

/// The trimmed text after the first `n` characters of `l`.
fn trimmed_rest(l: &Vec<char>, n: usize) -> (r: String)
    requires
        n <= l.len(),
    ensures
        r@ == trim(l@.skip(n as int)),
{
    let (lo, hi) = trim_bounds(l, n, l.len());
    assert(l@.subrange(n as int, l@.len() as int) =~= l@.skip(n as int));
    from_chars(l, lo, hi)
}

/// The worktrees that `git worktree list --porcelain` lists.
pub fn get_worktrees(stdout: &str) -> (r: Vec<WorktreeInfo>)
    ensures
        worktree_views(r@) == worktrees_of(lines(stdout@)),
{
    let v = to_chars(stdout);
    let ls = lines_of(&v);
    let ghost lv = lines(stdout@);
    let wt_prefix = to_chars("worktree ");
    let branch_prefix = to_chars("branch ");
    let head_prefix = to_chars("HEAD ");
    proof {
        reveal_strlit("worktree ");
        reveal_strlit("branch ");
        reveal_strlit("HEAD ");
    }
    let mut done: Vec<WorktreeInfo> = Vec::new();
    let mut current: Option<WorktreeInfo> = None;
    let mut i: usize = 0;
    while i < ls.len()
        invariant
            i <= ls.len(),
            views(ls@) == lv,
            lv == lines(stdout@),
            wt_prefix@ == "worktree "@,
            branch_prefix@ == "branch "@,
            head_prefix@ == "HEAD "@,
            "worktree "@.len() == 9,
            "branch "@.len() == 7,
            "HEAD "@.len() == 5,
            (worktree_views(done@), opt_worktree_view(current)) == listing_state(lv.take(i as int)),
        decreases ls.len() - i,
    {
        assert(ls@[i as int]@ == lv[i as int]);
        assert(lv.take(i + 1).drop_last() =~= lv.take(i as int));
        assert(lv.take(i + 1).last() == lv[i as int]);
        let lc = to_chars(ls[i].as_str());
        let (lo, hi) = trim_bounds(&lc, 0, lc.len());
        assert(lc@.subrange(0, lc@.len() as int) =~= lc@);
        let t = from_chars(&lc, lo, hi);
        let l = to_chars(t.as_str());
        let ghost old_done = worktree_views(done@);
        if l.len() == 0 {
            match current {
                Some(w) => {
                    let ghost wv = worktree_view(w);
                    done.push(w);
                    assert(worktree_views(done@) =~= old_done.push(wv));
                    current = None;
                },
                None => {},
            }
        } else if starts_with_exec(&l, &wt_prefix) {
            current = Some(WorktreeInfo { path: trimmed_rest(&l, 9), branch: None, head: None });
        } else if starts_with_exec(&l, &branch_prefix) {
            current = match current {
                Some(w) => Some(
                    WorktreeInfo { path: w.path, branch: Some(trimmed_rest(&l, 7)), head: w.head },
                ),
                None => None,
            };
        } else if starts_with_exec(&l, &head_prefix) {
            current = match current {
                Some(w) => Some(
                    WorktreeInfo { path: w.path, branch: w.branch, head: Some(trimmed_rest(&l, 5)) },
                ),
                None => None,
            };
        }
        i += 1;
    }
    assert(lv.take(ls.len() as int) =~= lv);
    match current {
        Some(w) => {
            let ghost old_done = worktree_views(done@);
            let ghost wv = worktree_view(w);
            done.push(w);
            assert(worktree_views(done@) =~= old_done.push(wv));
        },
        None => {},
    }
    done
}

/// `git worktree add`: with a new branch, `-b <branch> <path>`; with an
/// existing branch, `<path> <branch>`; with no branch named, `<path>` alone,
/// or `-b <path>` when a new branch was asked for without a name.
pub open spec fn create_worktree_args(path: Seq<char>, branch: Option<Seq<char>>, create_branch: bool) -> Seq<Seq<char>> {
    seq!["worktree"@, "add"@] + match branch {
        Some(b) => if create_branch {
            seq!["-b"@, b, path]
        } else {
            seq![path, b]
        },
        None => if create_branch {
            seq!["-b"@, path]
        } else {
            seq![path]
        },
    }
}

pub fn create_worktree(path: &str, branch: Option<&str>, create_branch: bool) -> (r: GitCall)
    ensures
        call_view(r) == (create_worktree_args(
            path@,
            match branch {
                Some(b) => Some(b@),
                None => None,
            },
            create_branch,
        ), "✓ Created worktree at '"@ + path@ + "'"@),
{
    let mut args: Vec<String> = Vec::new();
    push_str(&mut args, "worktree");
    push_str(&mut args, "add");
    match branch {
        Some(b) => if create_branch {
            push_str(&mut args, "-b");
            push_str(&mut args, b);
            push_str(&mut args, path);
        } else {
            push_str(&mut args, path);
            push_str(&mut args, b);
        },
        None => {
            if create_branch {
                push_str(&mut args, "-b");
            }
            push_str(&mut args, path);
        },
    }
    let r = git_call(args, String::from_str("✓ Created worktree at '").concat(path).concat("'"));
    assert(call_view(r).0 =~= create_worktree_args(
        path@,
        match branch {
            Some(b) => Some(b@),
            None => None,
        },
        create_branch,
    ));
    r
}

pub fn remove_worktree(path: &str, force: bool) -> (r: GitCall)
    ensures
        call_view(r) == (seq!["worktree"@, "remove"@] + (if force {
            seq!["--force"@]
        } else {
            seq![]
        }) + seq![path@], "✓ Removed worktree at '"@ + path@ + "'"@),
{
    let mut args: Vec<String> = Vec::new();
    push_str(&mut args, "worktree");
    push_str(&mut args, "remove");
    if force {
        push_str(&mut args, "--force");
    }
    push_str(&mut args, path);
    let r = git_call(args, String::from_str("✓ Removed worktree at '").concat(path).concat("'"));
    assert(call_view(r).0 =~= seq!["worktree"@, "remove"@] + (if force {
        seq!["--force"@]
    } else {
        seq![]
    }) + seq![path@]);
    r
}

pub fn prune_worktrees() -> (r: GitCall)
    ensures
        call_view(r) == (seq!["worktree"@, "prune"@], "✓ Pruned worktrees"@),
{
    let mut args: Vec<String> = Vec::new();
    push_str(&mut args, "worktree");
    push_str(&mut args, "prune");
    let r = git_call(args, String::from_str("✓ Pruned worktrees"));
    assert(call_view(r).0 =~= seq!["worktree"@, "prune"@]);
    r
}


// ---------------------------------------------------------------------------
// Listing and the worktree menu
// ---------------------------------------------------------------------------

/// What a worktree is shown with: its branch, else its commit.
pub open spec fn worktree_info(w: WorktreeView) -> Option<Seq<char>> {
    match w.1 {
        Some(b) => Some(b),
        None => w.2,
    }
}

/// The listing line of a worktree.
pub open spec fn worktree_listing_line(w: WorktreeView) -> Seq<char> {
    match worktree_info(w) {
        Some(info) => "  "@ + w.0 + " ("@ + (if w.1 is Some {
            "branch"@
        } else {
            "detached"@
        }) + ": "@ + info + ")"@,
        None => "  "@ + w.0,
    }
}

/// What listing the worktrees prints; `with_hint` adds how to create one
/// when there is none.
pub open spec fn worktree_listing(ws: Seq<WorktreeView>, with_hint: bool) -> Seq<Seq<char>> {
    if ws.len() == 0 {
        if with_hint {
            seq![
                "No worktrees found."@,
                "Use 'supgit worktree add <path> [--branch <name>]' to create one."@,
            ]
        } else {
            seq!["No worktrees found."@]
        }
    } else {
        seq!["Worktrees:"@] + ws.map_values(|w: WorktreeView| worktree_listing_line(w))
    }
}

fn worktree_info_exec(w: &WorktreeInfo) -> (r: Option<String>)
    ensures
        opt_view(r) == worktree_info(worktree_view(*w)),
{
    match &w.branch {
        Some(b) => Some(copy_string(b)),
        None => match &w.head {
            Some(h) => Some(copy_string(h)),
            None => None,
        },
    }
}

pub fn worktree_listing_lines(worktrees: &Vec<WorktreeInfo>, with_hint: bool) -> (r: Vec<String>)
    ensures
        views(r@) == worktree_listing(worktree_views(worktrees@), with_hint),
{
    let mut out: Vec<String> = Vec::new();
    if worktrees.len() == 0 {
        push_str(&mut out, "No worktrees found.");
        if with_hint {
            push_str(&mut out, "Use 'supgit worktree add <path> [--branch <name>]' to create one.");
        }
        assert(views(out@) =~= worktree_listing(worktree_views(worktrees@), with_hint));
        return out;
    }
    push_str(&mut out, "Worktrees:");
    let ghost wv = worktree_views(worktrees@);
    let mut i: usize = 0;
    while i < worktrees.len()
        invariant
            i <= worktrees.len(),
            wv == worktree_views(worktrees@),
            views(out@) == seq!["Worktrees:"@] + wv.take(i as int).map_values(
                |w: WorktreeView| worktree_listing_line(w),
            ),
        decreases worktrees.len() - i,
    {
        let w = &worktrees[i];
        let mut line = String::from_str("  ");
        line.append(w.path.as_str());
        match worktree_info_exec(w) {
            Some(info) => {
                line.append(" (");
                if w.branch.is_some() {
                    line.append("branch");
                } else {
                    line.append("detached");
                }
                line.append(": ");
                line.append(info.as_str());
                line.append(")");
            },
            None => {},
        }
        let ghost old_out = out@;
        out.push(line);
        assert(views(out@) =~= views(old_out).push(worktree_listing_line(wv[i as int])));
        assert(wv.take(i + 1).map_values(|w: WorktreeView| worktree_listing_line(w)) =~= wv.take(
            i as int,
        ).map_values(|w: WorktreeView| worktree_listing_line(w)).push(
            worktree_listing_line(wv[i as int]),
        ));
        i += 1;
    }
    assert(wv.take(worktrees.len() as int) =~= wv);
    out
}

/// The menu line of a worktree: `path (info)`, or the bare path.
pub open spec fn worktree_menu_line(w: WorktreeView) -> Seq<char> {
    match worktree_info(w) {
        Some(info) => w.0 + " ("@ + info + ")"@,
        None => w.0,
    }
}

/// The worktree menu: the worktrees and removal when there are worktrees,
/// then creating and pruning.
pub open spec fn worktree_menu(ws: Seq<WorktreeView>) -> Seq<Seq<char>> {
    (if ws.len() > 0 {
        ws.map_values(|w: WorktreeView| worktree_menu_line(w)) + seq!["Remove a worktree"@]
    } else {
        seq![]
    }) + seq!["Create a new worktree"@, "Prune stale worktrees"@]
}

pub fn worktree_menu_items(worktrees: &Vec<WorktreeInfo>) -> (r: Vec<String>)
    ensures
        views(r@) == worktree_menu(worktree_views(worktrees@)),
{
    let ghost wv = worktree_views(worktrees@);
    let mut out: Vec<String> = Vec::new();
    let mut i: usize = 0;
    while i < worktrees.len()
        invariant
            i <= worktrees.len(),
            wv == worktree_views(worktrees@),
            views(out@) == wv.take(i as int).map_values(|w: WorktreeView| worktree_menu_line(w)),
        decreases worktrees.len() - i,
    {
        let w = &worktrees[i];
        let line = match worktree_info_exec(w) {
            Some(info) => copy_string(&w.path).concat(" (").concat(info.as_str()).concat(")"),
            None => copy_string(&w.path),
        };
        let ghost old_out = out@;
        out.push(line);
        assert(views(out@) =~= views(old_out).push(worktree_menu_line(wv[i as int])));
        assert(wv.take(i + 1).map_values(|w: WorktreeView| worktree_menu_line(w)) =~= wv.take(
            i as int,
        ).map_values(|w: WorktreeView| worktree_menu_line(w)).push(worktree_menu_line(wv[i as int])));
        i += 1;
    }
    assert(wv.take(worktrees.len() as int) =~= wv);
    if worktrees.len() > 0 {
        push_str(&mut out, "Remove a worktree");
    }
    push_str(&mut out, "Create a new worktree");
    push_str(&mut out, "Prune stale worktrees");
    assert(views(out@) =~= worktree_menu(wv));
    out
}

/// What a pick from the worktree menu asks for.
pub enum WorktreeAction {
    /// Offer to remove the worktree at this position.
    RemoveThis(usize),
    /// Pick a worktree to remove.
    Remove,
    Create,
    Prune,
    /// The pick matches no line of the menu.
    Nothing,
}

/// The action for a pick from the worktree menu of `n` worktrees, position by
/// position as `worktree_menu` lays it out: the worktrees and "Remove a
/// worktree" when there are any, then "Create a new worktree" and "Prune
/// stale worktrees".
pub open spec fn worktree_action(selection: nat, n: nat) -> WorktreeAction {
    let create = if n > 0 {
        n + 1
    } else {
        0
    };
    if selection < n {
        WorktreeAction::RemoveThis(selection as usize)
    } else if n > 0 && selection == n {
        WorktreeAction::Remove
    } else if selection == create {
        WorktreeAction::Create
    } else if selection == create + 1 {
        WorktreeAction::Prune
    } else {
        WorktreeAction::Nothing
    }
}

pub fn worktree_menu_action(selection: usize, n: usize) -> (r: WorktreeAction)
    ensures
        r == worktree_action(selection as nat, n as nat),
{
    if selection < n {
        return WorktreeAction::RemoveThis(selection);
    }
    let d = selection - n;
    let k = if n > 0 {
        if d == 0 {
            return WorktreeAction::Remove;
        }
        d - 1
    } else {
        d
    };
    if k == 0 {
        WorktreeAction::Create
    } else if k == 1 {
        WorktreeAction::Prune
    } else {
        WorktreeAction::Nothing
    }
}

/// `s` without any number of leading `* ` (`str::trim_start_matches`).
pub open spec fn strip_current_marks(s: Seq<char>) -> Seq<char>
    decreases s.len(),
{
    if s.len() >= 2 && s[0] == '*' && s[1] == ' ' {
        strip_current_marks(s.skip(2))
    } else {
        s
    }
}

/// A branch picked from `git branch -a`, without the mark of the current
/// branch.
pub fn selected_branch_name(line: &str) -> (r: String)
    ensures
        r@ == strip_current_marks(line@),
{
    let v = to_chars(line);
    let mut start: usize = 0;
    assert(v@.skip(0) =~= v@);
    while v.len() - start >= 2 && v[start] == '*' && v[start + 1] == ' '
        invariant
            start <= v.len(),
            strip_current_marks(v@.skip(start as int)) == strip_current_marks(v@),
        decreases v.len() - start,
    {
        assert(v@.skip(start as int).skip(2) =~= v@.skip(start + 2));
        start += 2;
    }
    let r = from_chars(&v, start, v.len());
    assert(r@ =~= v@.skip(start as int));
    r
}

/// Each line of the worktree menu picks what it says: a worktree line offers
/// to remove that worktree, each fixed line its own action, and a pick past
/// the menu nothing.
pub proof fn law_worktree_menu_follows_labels(ws: Seq<WorktreeView>)
    ensures
        ({
            let m = worktree_menu(ws);
            let n = ws.len();
            &&& forall|i: int| 0 <= i < n ==> (#[trigger] worktree_action(i as nat, n)) == WorktreeAction::RemoveThis(i as usize)
            &&& forall|i: int| n <= i < m.len() && (#[trigger] worktree_action(i as nat, n)) is Remove ==> m[i] == "Remove a worktree"@
            &&& forall|i: int| n <= i < m.len() && (#[trigger] worktree_action(i as nat, n)) is Create ==> m[i] == "Create a new worktree"@
            &&& forall|i: int| n <= i < m.len() && (#[trigger] worktree_action(i as nat, n)) is Prune ==> m[i] == "Prune stale worktrees"@
            &&& forall|i: int| 0 <= i < m.len() ==> !((#[trigger] worktree_action(i as nat, n)) is Nothing)
            &&& forall|i: int| i >= m.len() ==> (#[trigger] worktree_action(i as nat, n)) is Nothing
        }),
{
    let m = worktree_menu(ws);
    let n = ws.len();
    if n > 0 {
        assert(m.len() == n + 3);
        assert(m[n as int] == "Remove a worktree"@);
        assert(m[n as int + 1] == "Create a new worktree"@);
        assert(m[n as int + 2] == "Prune stale worktrees"@);
    } else {
        assert(m =~= seq!["Create a new worktree"@, "Prune stale worktrees"@]);
    }
}

/// What `worktree` does with its options.
pub enum WorktreeRequest {
    List,
    Add(GitCall),
    Remove(GitCall),
    Prune(GitCall),
    /// No option: the interactive menu.
    Menu,
}

/// The option of `worktree` that acts: the first given of `--list`, `--add`
/// (with `--branch` and `--new-branch`), `--remove` (with `--force`) and
/// `--prune`; with none, the menu.
pub fn worktree_request(
    add: Option<String>,
    remove: Option<String>,
    branch: Option<String>,
    new_branch: bool,
    force: bool,
    prune: bool,
    list: bool,
) -> (r: WorktreeRequest)
    ensures
        list ==> r is List,
        !list && add is Some ==> (r matches WorktreeRequest::Add(c) && call_view(c) == (
            create_worktree_args(
                add->0@,
                match branch {
                    Some(b) => Some(b@),
                    None => None,
                },
                new_branch,
            ),
            "✓ Created worktree at '"@ + add->0@ + "'"@,
        )),
        !list && add is None && remove is Some ==> (r matches WorktreeRequest::Remove(c) && call_view(c)
            == (seq!["worktree"@, "remove"@] + (if force {
            seq!["--force"@]
        } else {
            seq![]
        }) + seq![remove->0@], "✓ Removed worktree at '"@ + remove->0@ + "'"@)),
        !list && add is None && remove is None && prune ==> (r matches WorktreeRequest::Prune(c)
            && call_view(c) == (seq!["worktree"@, "prune"@], "✓ Pruned worktrees"@)),
        !list && add is None && remove is None && !prune ==> r is Menu,
{
    if list {
        return WorktreeRequest::List;
    }
    match add {
        Some(p) => {
            let b = match &branch {
                Some(b) => Some(b.as_str()),
                None => None,
            };
            WorktreeRequest::Add(create_worktree(p.as_str(), b, new_branch))
        },
        None => match remove {
            Some(p) => WorktreeRequest::Remove(remove_worktree(p.as_str(), force)),
            None => if prune {
                WorktreeRequest::Prune(prune_worktrees())
            } else {
                WorktreeRequest::Menu
            },
        },
    }
}

/// What the worktree menu says of a blank path (`is_path`) or blank branch
/// name typed in, which stops the creation; none when the input is usable.
pub fn worktree_input_problem(input: &str, is_path: bool) -> (r: Option<&'static str>)
    ensures
        trim(input@).len() == 0 ==> (r matches Some(m) && m@ == if is_path {
            "Path cannot be empty."@
        } else {
            "Branch name cannot be empty."@
        }),
        trim(input@).len() > 0 ==> r is None,
{
    if !crate::text::is_blank(input) {
        None
    } else if is_path {
        Some("Path cannot be empty.")
    } else {
        Some("Branch name cannot be empty.")
    }
}

/// The branches offered for a new worktree, from the output of
/// `git branch -a`: its trimmed non-blank lines, refused when there is none.
pub fn worktree_branch_choices(stdout: &str) -> (r: Result<Vec<String>, SupgitError>)
    ensures
        trimmed_nonempty_lines(stdout@).len() == 0 ==> r matches Err(SupgitError::NoBranchesAvailable),
        trimmed_nonempty_lines(stdout@).len() > 0 ==> (r matches Ok(v) && views(v@)
            == trimmed_nonempty_lines(stdout@)),
{
    let v = get_branches(stdout);
    if v.len() == 0 {
        Err(SupgitError::NoBranchesAvailable)
    } else {
        Ok(v)
    }
}

/// A line that starts a worktree record (`worktree <path>`).
pub open spec fn is_record_start(l: Seq<char>) -> bool {
    starts_with(trim(l), "worktree "@)
}

/// A line that ends a record.
pub open spec fn is_blank_line(l: Seq<char>) -> bool {
    trim(l).len() == 0
}

/// How many lines start a record.
pub open spec fn record_starts(ls: Seq<Seq<char>>) -> nat
    decreases ls.len(),
{
    if ls.len() == 0 {
        0
    } else {
        record_starts(ls.drop_last()) + if is_record_start(ls.last()) {
            1nat
        } else {
            0nat
        }
    }
}

/// Records are separated: a blank line stands between any two record starts.
pub open spec fn records_separated(ls: Seq<Seq<char>>) -> bool {
    forall|i: int, j: int|
        0 <= i < j < ls.len() && is_record_start(#[trigger] ls[i]) && is_record_start(#[trigger] ls[j])
            ==> exists|k: int| i < k < j && is_blank_line(#[trigger] ls[k])
}

spec fn state_count(st: ListingState) -> nat {
    st.0.len() + if st.1 is Some {
        1nat
    } else {
        0nat
    }
}

proof fn lemma_step_shape(st: ListingState, line: Seq<char>)
    ensures
        is_blank_line(line) ==> worktree_step(st, line).1 is None && state_count(worktree_step(st, line))
            == state_count(st),
        is_record_start(line) ==> worktree_step(st, line).1 is Some && worktree_step(st, line).0 == st.0,
        !is_blank_line(line) && !is_record_start(line) ==> worktree_step(st, line).0 == st.0 && (
        worktree_step(st, line).1 is Some <==> st.1 is Some),
{
    reveal_strlit("worktree ");
    if is_record_start(line) {
        assert(trim(line).len() >= 9);
    }
}

/// With a blank line after every record start, no worktree is being read.
proof fn lemma_all_closed(ls: Seq<Seq<char>>)
    requires
        forall|i: int|
            0 <= i < ls.len() && is_record_start(#[trigger] ls[i]) ==> exists|k: int|
                i < k < ls.len() && is_blank_line(#[trigger] ls[k]),
    ensures
        listing_state(ls).1 is None,
    decreases ls.len(),
{
    if ls.len() > 0 {
        let pre = ls.drop_last();
        lemma_step_shape(listing_state(pre), ls.last());
        if !is_blank_line(ls.last()) {
            assert forall|i: int|
                0 <= i < pre.len() && is_record_start(#[trigger] pre[i]) implies exists|k: int|
                    i < k < pre.len() && is_blank_line(#[trigger] pre[k]) by {
                assert(is_record_start(ls[i]));
                let k = choose|k: int| i < k < ls.len() && is_blank_line(#[trigger] ls[k]);
                assert(k != ls.len() - 1);
                assert(pre[k] == ls[k]);
            }
            if is_record_start(ls.last()) {
                assert(is_record_start(ls[ls.len() - 1]));
                let k = choose|k: int| ls.len() - 1 < k < ls.len() && is_blank_line(#[trigger] ls[k]);
            }
            lemma_all_closed(pre);
        }
    }
}

proof fn lemma_record_count(ls: Seq<Seq<char>>)
    ensures
        state_count(listing_state(ls)) <= record_starts(ls),
        records_separated(ls) ==> state_count(listing_state(ls)) == record_starts(ls),
    decreases ls.len(),
{
    if ls.len() > 0 {
        let pre = ls.drop_last();
        let n = ls.len() - 1;
        lemma_record_count(pre);
        lemma_step_shape(listing_state(pre), ls.last());
        if records_separated(ls) {
            assert forall|i: int, j: int|
                0 <= i < j < pre.len() && is_record_start(#[trigger] pre[i]) && is_record_start(
                    #[trigger] pre[j],
                ) implies exists|k: int| i < k < j && is_blank_line(#[trigger] pre[k]) by {
                assert(pre[i] == ls[i] && pre[j] == ls[j]);
                assert(is_record_start(ls[i]) && is_record_start(ls[j]));
                let k = choose|k: int| i < k < j && is_blank_line(#[trigger] ls[k]);
                assert(pre[k] == ls[k]);
            }
            if is_record_start(ls.last()) {
                assert forall|i: int|
                    0 <= i < pre.len() && is_record_start(#[trigger] pre[i]) implies exists|k: int|
                        i < k < pre.len() && is_blank_line(#[trigger] pre[k]) by {
                    assert(pre[i] == ls[i]);
                    assert(is_record_start(ls[i]) && is_record_start(ls[n]));
                    let k = choose|k: int| i < k < n && is_blank_line(#[trigger] ls[k]);
                    assert(pre[k] == ls[k]);
                }
                lemma_all_closed(pre);
            }
        }
    }
}

/// Each `worktree <path>` record yields one worktree: there are never more
/// worktrees than record starts, exactly as many when a blank line closes
/// each record before the next begins (as git prints it, a listing ending in
/// a blank line giving no extra entry), and a blank line leaves no worktree
/// being read.
pub proof fn law_one_worktree_per_record(ls: Seq<Seq<char>>)
    ensures
        worktrees_of(ls).len() <= record_starts(ls),
        records_separated(ls) ==> worktrees_of(ls).len() == record_starts(ls),
        ls.len() > 0 && is_blank_line(ls.last()) ==> listing_state(ls).1 is None,
{
    lemma_record_count(ls);
    if ls.len() > 0 {
        lemma_step_shape(listing_state(ls.drop_last()), ls.last());
    }
}

} // verus!
