//! The command line: the commands and their options, the command table, and
//! the decisions made before a command runs.
use vstd::prelude::*;

use crate::error::SupgitError;
use crate::plan::{call_view, literal_call, GitCall};
use crate::remote::{
    add_remote, add_remote_result, remove_remote, remove_remote_result, set_remote_url,
    set_remote_url_result,
};
use crate::text::{
    contains, copy_string, find, find_exec, first_match, from_chars, lemma_find_range,
    position_of_string, push_str, push_string, seq_is, to_chars, views,
};

verus! {

/// The options given before the command.
pub struct Cli {
    pub non_interactive: bool,
    pub quiet: bool,
    pub verbose: bool,
    pub explain: bool,
    pub command: Option<SupgitCommand>,
}

/// A command and its options.
#[allow(inconsistent_fields)]
pub enum SupgitCommand {
    Init,
    Stage { targets: Vec<String>, all: bool, tracked_only: bool },
    Unstage { targets: Vec<String>, all: bool },
    Status { short: bool },
    Commit {
        message: Option<String>,
        all: bool,
        staged: bool,
        unstaged: bool,
        push: bool,
        amend: bool,
        skip_hooks: bool,
    },
    Log { short: bool },
    Diff { path: Option<String>, staged: bool },
    Reset { all: bool, staged: bool, unstaged: bool, tracked_only: bool, untracked: bool },
    Branch { create: Option<String>, delete: Option<String> },
    Push { remote: Option<String>, branch: Option<String> },
    Pull { remote: Option<String>, branch: Option<String> },
    Sync { remote: Option<String>, branch: Option<String> },
    Clone { url: String, directory: Option<String> },
    Update,
    Alias { dry_run: bool, git: bool, sg: bool },
    Unalias { dry_run: bool, git: bool, sg: bool },
    Remote { add: Option<Vec<String>>, remove: Option<String>, set_url: Option<Vec<String>> },
    Shelve {
        save: Option<String>,
        apply: Option<usize>,
        unshelve: Option<usize>,
        drop: Option<usize>,
        clear: bool,
        list: bool,
    },
    Worktree {
        add: Option<String>,
        remove: Option<String>,
        branch: Option<String>,
        new_branch: bool,
        force: bool,
        prune: bool,
        list: bool,
    },
    Tag {
        create: Option<String>,
        delete: Option<String>,
        push: Option<String>,
        push_all: bool,
        message: Option<String>,
        annotate: bool,
        force: bool,
        list: bool,
    },
}

// ---------------------------------------------------------------------------
// The command table
// ---------------------------------------------------------------------------

/// The commands, in menu order.
pub open spec fn command_names_view() -> Seq<Seq<char>> {
    seq![
        "init"@,
        "stage"@,
        "unstage"@,
        "status"@,
        "commit"@,
        "log"@,
        "diff"@,
        "reset"@,
        "branch"@,
        "remote"@,
        "push"@,
        "pull"@,
        "sync"@,
        "clone"@,
        "update"@,
        "alias"@,
        "unalias"@,
        "shelve"@,
        "worktree"@,
        "tag"@,
    ]
}

/// What each command does, in menu order.
pub open spec fn command_descriptions_view() -> Seq<Seq<char>> {
    seq![
        "Initialize a new Git repository"@,
        "Stage files for commit"@,
        "Unstage files from staging area"@,
        "Show working tree status"@,
        "Commit staged changes"@,
        "View commit history"@,
        "Show changes between commits"@,
        "Reset working tree state"@,
        "List, create, or delete branches"@,
        "Manage remote repositories"@,
        "Push commits to remote"@,
        "Pull commits from remote"@,
        "Sync with remote (fetch, pull, push)"@,
        "Clone a repository"@,
        "Update supgit to latest version"@,
        "Add shell alias"@,
        "Remove shell alias"@,
        "Shelve changes temporarily"@,
        "Manage worktrees"@,
        "List, create, or delete tags"@,
    ]
}

fn command_table() -> (r: [(&'static str, &'static str); 20])
    ensures
        forall|i: int|
            0 <= i < 20 ==> (#[trigger] r@[i]).0@ == command_names_view()[i] && r@[i].1@
                == command_descriptions_view()[i],
{
    let t = [
        ("init", "Initialize a new Git repository"),
        ("stage", "Stage files for commit"),
        ("unstage", "Unstage files from staging area"),
        ("status", "Show working tree status"),
        ("commit", "Commit staged changes"),
        ("log", "View commit history"),
        ("diff", "Show changes between commits"),
        ("reset", "Reset working tree state"),
        ("branch", "List, create, or delete branches"),
        ("remote", "Manage remote repositories"),
        ("push", "Push commits to remote"),
        ("pull", "Pull commits from remote"),
        ("sync", "Sync with remote (fetch, pull, push)"),
        ("clone", "Clone a repository"),
        ("update", "Update supgit to latest version"),
        ("alias", "Add shell alias"),
        ("unalias", "Remove shell alias"),
        ("shelve", "Shelve changes temporarily"),
        ("worktree", "Manage worktrees"),
        ("tag", "List, create, or delete tags"),
    ];
    t
}

/// The names of the commands, in menu order.
pub fn get_command_names() -> (r: Vec<&'static str>)
    ensures
        r@.map_values(|s: &str| s@) == command_names_view(),
{
    let t = command_table();
    let mut out: Vec<&'static str> = Vec::new();
    let mut i: usize = 0;
    while i < 20
        invariant
            i <= 20,
            forall|j: int|
                0 <= j < 20 ==> (#[trigger] t@[j]).0@ == command_names_view()[j],
            out@.map_values(|s: &str| s@) == command_names_view().take(i as int),
        decreases 20 - i,
    {
        let ghost old_out = out@;
        assert(t@[i as int].0@ == command_names_view()[i as int]);
        out.push(t[i].0);
        assert(out@.map_values(|s: &str| s@) =~= old_out.map_values(|s: &str| s@).push(
            command_names_view()[i as int],
        ));
        assert(command_names_view().take(i + 1) =~= command_names_view().take(i as int).push(
            command_names_view()[i as int],
        ));
        i += 1;
    }
    assert(command_names_view().take(20) =~= command_names_view());
    out
}

/// The lines of the command menu: `name – description`.
pub fn command_menu_items() -> (r: Vec<String>)
    ensures
        r@.len() == 20,
        forall|i: int|
            0 <= i < 20 ==> (#[trigger] r@[i])@ == command_names_view()[i] + " – "@
                + command_descriptions_view()[i],
{
    let t = command_table();
    let mut out: Vec<String> = Vec::new();
    let mut i: usize = 0;
    while i < 20
        invariant
            i <= 20,
            out@.len() == i,
            forall|j: int|
                0 <= j < 20 ==> (#[trigger] t@[j]).0@ == command_names_view()[j] && t@[j].1@
                    == command_descriptions_view()[j],
            forall|j: int|
                0 <= j < i ==> (#[trigger] out@[j])@ == command_names_view()[j] + " – "@
                    + command_descriptions_view()[j],
        decreases 20 - i,
    {
        let (name, desc) = t[i];
        out.push(String::from_str(name).concat(" – ").concat(desc));
        i += 1;
    }
    out
}

/// The names that have a default form (no options given): every command
/// but `clone`.
pub open spec fn has_default_form(name: Seq<char>) -> bool {
    name == "init"@ || name == "stage"@ || name == "unstage"@ || name == "status"@ || name
        == "commit"@ || name == "log"@ || name == "diff"@ || name == "reset"@ || name == "branch"@
        || name == "push"@ || name == "pull"@ || name == "sync"@ || name == "update"@ || name
        == "alias"@ || name == "unalias"@ || name == "remote"@ || name == "shelve"@ || name
        == "worktree"@ || name == "tag"@
}

/// `c` is the command `name` with no option given.
pub open spec fn is_default_form(c: SupgitCommand, name: Seq<char>) -> bool {
    if name == "init"@ {
        c is Init
    } else if name == "stage"@ {
        c matches SupgitCommand::Stage { targets, all, tracked_only } && targets@.len() == 0 && !all
            && !tracked_only
    } else if name == "unstage"@ {
        c matches SupgitCommand::Unstage { targets, all } && targets@.len() == 0 && !all
    } else if name == "status"@ {
        c matches SupgitCommand::Status { short } && !short
    } else if name == "commit"@ {
        c matches SupgitCommand::Commit { message, all, staged, unstaged, push, amend, skip_hooks }
            && message is None && !all && !staged && !unstaged && !push && !amend && !skip_hooks
    } else if name == "log"@ {
        c matches SupgitCommand::Log { short } && !short
    } else if name == "diff"@ {
        c matches SupgitCommand::Diff { path, staged } && path is None && !staged
    } else if name == "reset"@ {
        c matches SupgitCommand::Reset { all, staged, unstaged, tracked_only, untracked } && !all
            && !staged && !unstaged && !tracked_only && !untracked
    } else if name == "branch"@ {
        c matches SupgitCommand::Branch { create, delete } && create is None && delete is None
    } else if name == "push"@ {
        c matches SupgitCommand::Push { remote, branch } && remote is None && branch is None
    } else if name == "pull"@ {
        c matches SupgitCommand::Pull { remote, branch } && remote is None && branch is None
    } else if name == "sync"@ {
        c matches SupgitCommand::Sync { remote, branch } && remote is None && branch is None
    } else if name == "update"@ {
        c is Update
    } else if name == "alias"@ {
        c matches SupgitCommand::Alias { dry_run, git, sg } && !dry_run && !git && !sg
    } else if name == "unalias"@ {
        c matches SupgitCommand::Unalias { dry_run, git, sg } && !dry_run && !git && !sg
    } else if name == "remote"@ {
        c matches SupgitCommand::Remote { add, remove, set_url } && add is None && remove is None
            && set_url is None
    } else if name == "shelve"@ {
        c matches SupgitCommand::Shelve { save, apply, unshelve, drop, clear, list } && save is None
            && apply is None && unshelve is None && drop is None && !clear && !list
    } else if name == "worktree"@ {
        c matches SupgitCommand::Worktree { add, remove, branch, new_branch, force, prune, list }
            && add is None && remove is None && branch is None && !new_branch && !force && !prune
            && !list
    } else if name == "tag"@ {
        c matches SupgitCommand::Tag { create, delete, push, push_all, message, annotate, force, list }
            && create is None && delete is None && push is None && !push_all && message is None
            && !annotate && !force && !list
    } else {
        false
    }
}

fn str_is(a: &str, b: &str) -> (r: bool)
    ensures
        r == (a@ == b@),
{
    String::from_str(a) == String::from_str(b)
}

/// The command `name` with no option given (for `remote`, `shelve`,
/// `worktree` and `tag`, their interactive menu); none for `clone`, which
/// needs a URL, and for an unknown name.
pub fn parse_command_from_name(name: &str) -> (r: Option<SupgitCommand>)
    ensures
        has_default_form(name@) ==> (r matches Some(c) && is_default_form(c, name@)),
        !has_default_form(name@) ==> r is None,
{
    if str_is(name, "init") {
        Some(SupgitCommand::Init)
    } else if str_is(name, "stage") {
        Some(SupgitCommand::Stage { targets: Vec::new(), all: false, tracked_only: false })
    } else if str_is(name, "unstage") {
        Some(SupgitCommand::Unstage { targets: Vec::new(), all: false })
    } else if str_is(name, "status") {
        Some(SupgitCommand::Status { short: false })
    } else if str_is(name, "commit") {
        Some(
            SupgitCommand::Commit {
                message: None,
                all: false,
                staged: false,
                unstaged: false,
                push: false,
                amend: false,
                skip_hooks: false,
            },
        )
    } else if str_is(name, "log") {
        Some(SupgitCommand::Log { short: false })
    } else if str_is(name, "diff") {
        Some(SupgitCommand::Diff { path: None, staged: false })
    } else if str_is(name, "reset") {
        Some(
            SupgitCommand::Reset {
                all: false,
                staged: false,
                unstaged: false,
                tracked_only: false,
                untracked: false,
            },
        )
    } else if str_is(name, "branch") {
        Some(SupgitCommand::Branch { create: None, delete: None })
    } else if str_is(name, "push") {
        Some(SupgitCommand::Push { remote: None, branch: None })
    } else if str_is(name, "pull") {
        Some(SupgitCommand::Pull { remote: None, branch: None })
    } else if str_is(name, "sync") {
        Some(SupgitCommand::Sync { remote: None, branch: None })
    } else if str_is(name, "update") {
        Some(SupgitCommand::Update)
    } else if str_is(name, "alias") {
        Some(SupgitCommand::Alias { dry_run: false, git: false, sg: false })
    } else if str_is(name, "unalias") {
        Some(SupgitCommand::Unalias { dry_run: false, git: false, sg: false })
    } else if str_is(name, "remote") {
        Some(SupgitCommand::Remote { add: None, remove: None, set_url: None })
    } else if str_is(name, "shelve") {
        Some(
            SupgitCommand::Shelve {
                save: None,
                apply: None,
                unshelve: None,
                drop: None,
                clear: false,
                list: false,
            },
        )
    } else if str_is(name, "worktree") {
        Some(
            SupgitCommand::Worktree {
                add: None,
                remove: None,
                branch: None,
                new_branch: false,
                force: false,
                prune: false,
                list: false,
            },
        )
    } else if str_is(name, "tag") {
        Some(
            SupgitCommand::Tag {
                create: None,
                delete: None,
                push: None,
                push_all: false,
                message: None,
                annotate: false,
                force: false,
                list: false,
            },
        )
    } else {
        None
    }
}

/// The command picked from the command menu: `clone` is refused (it needs a
/// URL); every other command runs in its default form.
pub fn command_for_selection(selection: usize) -> (r: Result<SupgitCommand, SupgitError>)
    requires
        selection < 20,
    ensures
        command_names_view()[selection as int] == "clone"@ ==> r matches Err(SupgitError::CloneNeedsUrl),
        command_names_view()[selection as int] != "clone"@ ==> (r matches Ok(c) && is_default_form(c, command_names_view()[selection as int])),
{
    let t = command_table();
    let (name, _) = t[selection];
    if str_is(name, "clone") {
        return Err(SupgitError::CloneNeedsUrl);
    }
    proof {
        law_default_forms_are_listed(name@);
        assert(command_names_view()[selection as int] == name@);
    }
    match parse_command_from_name(name) {
        Some(c) => Ok(c),
        None => Err(SupgitError::UnparsedCommand),
    }
}


// ---------------------------------------------------------------------------
// Recovering from a mistyped command
// ---------------------------------------------------------------------------

/// The command an "unrecognized subcommand" error names: the text between the
/// first quote of the message and the next one.
pub open spec fn unrecognized_subcommand(err: Seq<char>) -> Option<Seq<char>> {
    if !contains(err, "unrecognized subcommand"@) {
        None
    } else {
        let start = find(err, "'"@);
        if start < 0 {
            None
        } else {
            let rest = err.skip(start + 1);
            let end = find(rest, "'"@);
            if end < 0 {
                None
            } else {
                Some(rest.take(end))
            }
        }
    }
}

pub fn extract_unrecognized_subcommand(err_str: &str) -> (r: Option<String>)
    ensures
        match r {
            Some(s) => unrecognized_subcommand(err_str@) == Some(s@),
            None => unrecognized_subcommand(err_str@) is None,
        },
{
    if !crate::text::str_contains(err_str, "unrecognized subcommand") {
        return None;
    }
    let v = to_chars(err_str);
    let q = to_chars("'");
    proof {
        reveal_strlit("'");
        lemma_find_range(v@, q@);
    }
    let start = match find_exec(&v, &q) {
        Some(s) => s,
        None => {
            return None;
        },
    };
    assert(crate::text::matches_at(v@, q@, start as int));
    assert(q@.len() == 1);
    assert(start + 1 <= v.len());
    let rest_s = from_chars(&v, start + 1, v.len());
    let rest = to_chars(rest_s.as_str());
    assert(rest@ =~= v@.skip(start + 1));
    proof {
        lemma_find_range(rest@, q@);
    }
    let end = match find_exec(&rest, &q) {
        Some(e) => e,
        None => {
            return None;
        },
    };
    let r = from_chars(&rest, 0, end);
    assert(r@ =~= rest@.take(end as int));
    Some(r)
}

/// The arguments rerun with the closest command in place of a mistyped one:
/// the program, the command, then whatever followed the first occurrence of
/// the mistyped word.
pub open spec fn corrected_args_view(args: Seq<Seq<char>>, unrecognized: Seq<char>, closest: Seq<char>) -> Seq<Seq<char>> {
    let pos = first_match(args, seq_is(unrecognized));
    seq![args[0], closest] + if pos >= 0 {
        args.skip(pos + 1)
    } else {
        seq![]
    }
}

pub fn corrected_args(args: &Vec<String>, unrecognized: &str, closest: &str) -> (r: Vec<String>)
    requires
        args.len() > 0,
    ensures
        views(r@) == corrected_args_view(views(args@), unrecognized@, closest@),
{
    let ghost av = views(args@);
    let mut out: Vec<String> = Vec::new();
    push_string(&mut out, copy_string(&args[0]));
    push_string(&mut out, String::from_str(closest));
    let ghost head = views(out@);
    match position_of_string(args, &String::from_str(unrecognized)) {
        Some(pos) => {
            let mut i = pos + 1;
            while i < args.len()
                invariant
                    pos < i <= args.len(),
                    av == views(args@),
                    views(out@) == head + av.subrange(pos + 1, i as int),
                decreases args.len() - i,
            {
                push_string(&mut out, copy_string(&args[i]));
                assert(av.subrange(pos + 1, i + 1) =~= av.subrange(pos + 1, i as int).push(
                    args@[i as int]@,
                ));
                i += 1;
            }
            assert(av.subrange(pos + 1, args.len() as int) =~= av.skip(pos + 1));
        },
        None => {
            assert(head + Seq::<Seq<char>>::empty() =~= head);
        },
    }
    assert(head =~= seq![av[0], closest@]);
    out
}

/// Whether a command needs to run inside a repository: all do but `init`,
/// `clone`, `update`, `alias`, `unalias`, `remote`, `shelve`, `worktree`
/// and `tag`.
pub open spec fn needs_repo(c: SupgitCommand) -> bool {
    !(c is Init || c is Clone || c is Update || c is Alias || c is Unalias || c is Remote
        || c is Shelve || c is Worktree || c is Tag)
}

pub fn needs_repo_check(c: &SupgitCommand) -> (r: bool)
    ensures
        r == needs_repo(*c),
{
    match c {
        SupgitCommand::Init | SupgitCommand::Clone { .. } | SupgitCommand::Update
        | SupgitCommand::Alias { .. } | SupgitCommand::Unalias { .. } | SupgitCommand::Remote {
            ..
        } | SupgitCommand::Shelve { .. } | SupgitCommand::Worktree { .. } | SupgitCommand::Tag {
            ..
        } => false,
        _ => true,
    }
}

/// `git init`.
pub fn init_call() -> (r: GitCall)
    ensures
        call_view(r) == (seq!["init"@], "✓ Initialized Git repository"@),
{
    let c = literal_call(&["init"], "✓ Initialized Git repository");
    assert(call_view(c).0 =~= seq!["init"@]);
    c
}

/// `git status`, short with the branch line for `--short`.
pub fn status_args(short: bool) -> (r: Vec<String>)
    ensures
        views(r@) == if short {
            seq!["status"@, "-sb"@]
        } else {
            seq!["status"@]
        },
{
    let c = if short {
        literal_call(&["status", "-sb"], "")
    } else {
        literal_call(&["status"], "")
    };
    let r = c.args;
    assert(views(r@) =~= (if short {
        seq!["status"@, "-sb"@]
    } else {
        seq!["status"@]
    }));
    r
}

/// `git log`: the last twenty commits on one line each for `--short`, else
/// the last forty.
pub fn log_args(short: bool) -> (r: Vec<String>)
    ensures
        views(r@) == if short {
            seq!["log"@, "--oneline"@, "--decorate"@, "-n"@, "20"@]
        } else {
            seq!["log"@, "--decorate"@, "-n"@, "40"@]
        },
{
    let c = if short {
        literal_call(&["log", "--oneline", "--decorate", "-n", "20"], "")
    } else {
        literal_call(&["log", "--decorate", "-n", "40"], "")
    };
    let r = c.args;
    assert(views(r@) =~= (if short {
        seq!["log"@, "--oneline"@, "--decorate"@, "-n"@, "20"@]
    } else {
        seq!["log"@, "--decorate"@, "-n"@, "40"@]
    }));
    r
}

/// The name and URL given to `remote --add` or `--set-url`; refused unless
/// exactly two values were given.
pub fn remote_pair(values: &Vec<String>, adding: bool) -> (r: Result<(String, String), SupgitError>)
    ensures
        values.len() == 2 ==> (r matches Ok(p) && p.0@ == values@[0]@ && p.1@ == values@[1]@),
        values.len() != 2 && adding ==> r matches Err(SupgitError::AddNeedsTwoArgs),
        values.len() != 2 && !adding ==> r matches Err(SupgitError::SetUrlNeedsTwoArgs),
{
    if values.len() != 2 {
        if adding {
            return Err(SupgitError::AddNeedsTwoArgs);
        } else {
            return Err(SupgitError::SetUrlNeedsTwoArgs);
        }
    }
    Ok((copy_string(&values[0]), copy_string(&values[1])))
}

/// `git <verb>` followed by the optional operands in order (an absent one
/// adds nothing): the remote and branch of `push`, `pull` and `sync`, the
/// URL and directory of `clone`.
pub open spec fn with_operands(verb: Seq<char>, first: Option<Seq<char>>, second: Option<Seq<char>>) -> Seq<Seq<char>> {
    seq![verb] + (match first {
        Some(f) => seq![f],
        None => seq![],
    }) + (match second {
        Some(s) => seq![s],
        None => seq![],
    })
}

pub open spec fn opt_str(o: Option<&str>) -> Option<Seq<char>> {
    match o {
        Some(s) => Some(s@),
        None => None,
    }
}

/// The arguments of `git <verb> [<first>] [<second>]`.
pub fn operand_args(verb: &str, first: Option<&str>, second: Option<&str>) -> (r: Vec<String>)
    ensures
        views(r@) == with_operands(verb@, opt_str(first), opt_str(second)),
{
    let mut v: Vec<String> = Vec::new();
    push_str(&mut v, verb);
    match first {
        Some(f) => push_str(&mut v, f),
        None => {},
    }
    match second {
        Some(s) => push_str(&mut v, s),
        None => {},
    }
    assert(views(v@) =~= with_operands(verb@, opt_str(first), opt_str(second)));
    v
}

// ---------------------------------------------------------------------------
// Laws
// ---------------------------------------------------------------------------

/// The command menu and the default forms agree: every command with a
/// default form is offered in the menu, and every command the menu offers,
/// but `clone`, has one.
pub proof fn law_default_forms_are_listed(name: Seq<char>)
    ensures
        has_default_form(name) ==> command_names_view().contains(name),
        command_names_view().contains(name) && name != "clone"@ ==> has_default_form(name),
{
    let t = command_names_view();
    if has_default_form(name) {
        let k: int = if name == "init"@ {
            0
        } else if name == "stage"@ {
            1
        } else if name == "unstage"@ {
            2
        } else if name == "status"@ {
            3
        } else if name == "commit"@ {
            4
        } else if name == "log"@ {
            5
        } else if name == "diff"@ {
            6
        } else if name == "reset"@ {
            7
        } else if name == "branch"@ {
            8
        } else if name == "remote"@ {
            9
        } else if name == "push"@ {
            10
        } else if name == "pull"@ {
            11
        } else if name == "sync"@ {
            12
        } else if name == "update"@ {
            14
        } else if name == "alias"@ {
            15
        } else if name == "unalias"@ {
            16
        } else if name == "shelve"@ {
            17
        } else if name == "worktree"@ {
            18
        } else {
            19
        };
        assert(t[k] == name);
    }
    if t.contains(name) && name != "clone"@ {
        let k = choose|k: int| 0 <= k < t.len() && t[k] == name;
        assert(0 <= k < 20);
    }
}

/// What `remote` does with its options: a git call, or the menu.
pub enum RemoteRequest {
    Run(GitCall),
    /// No option: the interactive menu.
    Menu,
}

/// A remote request as views: `None` for the menu.
pub open spec fn remote_request_view(r: Result<RemoteRequest, SupgitError>) -> Result<
    Option<(Seq<Seq<char>>, Seq<char>)>,
    SupgitError,
> {
    match r {
        Ok(RemoteRequest::Run(c)) => Ok(Some(call_view(c))),
        Ok(RemoteRequest::Menu) => Ok(None),
        Err(e) => Err(e),
    }
}

/// A planned-or-refused call, with the call made optional.
pub open spec fn some_call(r: Result<(Seq<Seq<char>>, Seq<char>), SupgitError>) -> Result<
    Option<(Seq<Seq<char>>, Seq<char>)>,
    SupgitError,
> {
    match r {
        Ok(c) => Ok(Some(c)),
        Err(e) => Err(e),
    }
}

/// The option of `remote` that acts: `--add <name> <url>` before `--remove
/// <name>` before `--set-url <name> <url>`; with none, the menu.
pub fn remote_request(add: Option<Vec<String>>, remove: Option<String>, set_url: Option<Vec<String>>) -> (r: Result<RemoteRequest, SupgitError>)
    ensures
        add matches Some(v) ==> remote_request_view(r) == if v.len() == 2 {
            some_call(add_remote_result(v@[0]@, v@[1]@))
        } else {
            Err(SupgitError::AddNeedsTwoArgs)
        },
        add is None && remove is Some ==> remote_request_view(r) == some_call(
            remove_remote_result(remove->0@),
        ),
        add is None && remove is None ==> (set_url matches Some(v) ==> remote_request_view(r) == if v.len()
            == 2 {
            some_call(set_remote_url_result(v@[0]@, v@[1]@))
        } else {
            Err(SupgitError::SetUrlNeedsTwoArgs)
        }),
        add is None && remove is None && set_url is None ==> r matches Ok(RemoteRequest::Menu),
{
    match add {
        Some(v) => {
            let (name, url) = remote_pair(&v, true)?;
            match add_remote(name.as_str(), url.as_str()) {
                Ok(c) => Ok(RemoteRequest::Run(c)),
                Err(e) => Err(e),
            }
        },
        None => match remove {
            Some(name) => match remove_remote(name.as_str()) {
                Ok(c) => Ok(RemoteRequest::Run(c)),
                Err(e) => Err(e),
            },
            None => match set_url {
                Some(v) => {
                    let (name, url) = remote_pair(&v, false)?;
                    match set_remote_url(name.as_str(), url.as_str()) {
                        Ok(c) => Ok(RemoteRequest::Run(c)),
                        Err(e) => Err(e),
                    }
                },
                None => Ok(RemoteRequest::Menu),
            },
        },
    }
}

} // verus!
