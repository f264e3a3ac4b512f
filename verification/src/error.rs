//! The errors the library reports, each with the text the tool prints.
use vstd::prelude::*;

verus! {

/// Why a command was refused or failed.
#[derive(Debug)]
pub enum SupgitError {
    /// Not inside a git work tree.
    NotInRepo,
    /// `git rev-parse --show-toplevel` failed; its trimmed stderr.
    RepoRootFailed(String),
    /// `git status --porcelain` failed; its trimmed stderr.
    PorcelainFailed(String),
    /// No subcommand was given in non-interactive mode.
    MissingSubcommand,
    /// `clone` was picked from the menu, which cannot ask for its URL.
    CloneNeedsUrl,
    /// The command picked from the menu has no default form.
    UnparsedCommand,
    /// `remote --add` got other than two values.
    AddNeedsTwoArgs,
    /// `remote --set-url` got other than two values.
    SetUrlNeedsTwoArgs,
    /// `--git` and `--sg` were both given.
    BothAliasFlags,
    /// Neither `--git` nor `--sg` in non-interactive mode.
    AliasNeedsFlag,
    /// The alias block has a start marker but no end marker; `true` for the
    /// `sg` block.
    AliasEndMarkerMissing(bool),
    EmptyBranchName,
    BranchNameWhitespace,
    /// The branch to delete is the current one.
    CannotDeleteCurrentBranch(String),
    /// The branch to delete does not exist.
    BranchNotFound(String),
    /// Every branch is the current one.
    NoDeletableBranches,
    /// `git branch -d` failed for another reason than an unmerged branch:
    /// the branch and the trimmed stderr.
    BranchDeleteFailed(String, String),
    /// An interactive commit was asked for in non-interactive mode.
    CommitNeedsMessage,
    EmptyCommitMessage,
    /// `--staged` together with `--all` or `--unstaged`.
    StagedConflict,
    /// A git command failed: its arguments joined by spaces, and its trimmed
    /// stderr.
    GitFailed(String, String),
    /// The file holds a NUL byte.
    BinaryFile,
    /// The untracked file to diff is gone.
    FileGone(String),
    /// `git diff --no-index` failed; its trimmed stderr.
    UntrackedDiffFailed(String),
    EmptyRemoteName,
    RemoteNameWhitespace,
    EmptyRemoteUrl,
    EmptyNewRemoteUrl,
    NoRemotesToRemove,
    NoRemotesToModify,
    /// No branch to base a worktree on.
    NoBranchesAvailable,
}

/// The text printed for an error.
pub open spec fn error_message(e: SupgitError) -> Seq<char> {
    match e {
        SupgitError::NotInRepo => "not inside a git repository"@,
        SupgitError::RepoRootFailed(m) => "failed to get repo root: "@ + m@,
        SupgitError::PorcelainFailed(m) => "git status --porcelain failed: "@ + m@,
        SupgitError::MissingSubcommand =>
            "'supgit' requires a subcommand; use --help to see the available list"@,
        SupgitError::CloneNeedsUrl => "'clone' requires a URL argument; use 'supgit clone <url>'"@,
        SupgitError::UnparsedCommand => "failed to parse selected command"@,
        SupgitError::AddNeedsTwoArgs => "--add requires exactly two arguments: <name> <url>"@,
        SupgitError::SetUrlNeedsTwoArgs => "--set-url requires exactly two arguments: <name> <url>"@,
        SupgitError::BothAliasFlags => "Cannot use both --git and --sg flags"@,
        SupgitError::AliasNeedsFlag =>
            "alias selection requires --git or --sg flag in non-interactive mode"@,
        SupgitError::AliasEndMarkerMissing(sg) => if sg {
            "failed to find sg alias end marker"@
        } else {
            "failed to find alias end marker"@
        },
        SupgitError::EmptyBranchName => "branch name cannot be empty"@,
        SupgitError::BranchNameWhitespace => "branch name cannot contain whitespace"@,
        SupgitError::CannotDeleteCurrentBranch(b) => "cannot delete the current branch '"@ + b@
            + "'; switch to another branch first"@,
        SupgitError::BranchNotFound(b) => "branch '"@ + b@ + "' does not exist"@,
        SupgitError::NoDeletableBranches =>
            "no branches available to delete (cannot delete current branch)"@,
        SupgitError::BranchDeleteFailed(b, m) => "failed to delete branch '"@ + b@ + "': "@ + m@,
        SupgitError::CommitNeedsMessage => "commit requires --message in non-interactive mode"@,
        SupgitError::EmptyCommitMessage => "commit message cannot be empty"@,
        SupgitError::StagedConflict => "cannot combine --staged with --all or --unstaged"@,
        SupgitError::GitFailed(a, m) => "git "@ + a@ + " failed:\n  "@ + m@,
        SupgitError::BinaryFile => "binary file"@,
        SupgitError::FileGone(p) => "file '"@ + p@ + "' no longer exists"@,
        SupgitError::UntrackedDiffFailed(m) => "git diff --no-index failed:\n  "@ + m@,
        SupgitError::EmptyRemoteName => "remote name cannot be empty"@,
        SupgitError::RemoteNameWhitespace => "remote name cannot contain whitespace"@,
        SupgitError::EmptyRemoteUrl => "remote URL cannot be empty"@,
        SupgitError::EmptyNewRemoteUrl => "new remote URL cannot be empty"@,
        SupgitError::NoRemotesToRemove => "no remotes to remove"@,
        SupgitError::NoRemotesToModify => "no remotes to modify"@,
        SupgitError::NoBranchesAvailable => "No branches available"@,
    }
}

impl SupgitError {
    /// The text printed for this error.
    pub fn message(&self) -> (r: String)
        ensures
            r@ == error_message(*self),
    {
        match self {
            SupgitError::NotInRepo => String::from_str("not inside a git repository"),
            SupgitError::RepoRootFailed(m) => String::from_str("failed to get repo root: ").concat(
                m.as_str(),
            ),
            SupgitError::PorcelainFailed(m) => String::from_str(
                "git status --porcelain failed: ",
            ).concat(m.as_str()),
            SupgitError::MissingSubcommand => String::from_str(
                "'supgit' requires a subcommand; use --help to see the available list",
            ),
            SupgitError::CloneNeedsUrl => String::from_str(
                "'clone' requires a URL argument; use 'supgit clone <url>'",
            ),
            SupgitError::UnparsedCommand => String::from_str("failed to parse selected command"),
            SupgitError::AddNeedsTwoArgs => String::from_str(
                "--add requires exactly two arguments: <name> <url>",
            ),
            SupgitError::SetUrlNeedsTwoArgs => String::from_str(
                "--set-url requires exactly two arguments: <name> <url>",
            ),
            SupgitError::BothAliasFlags => String::from_str("Cannot use both --git and --sg flags"),
            SupgitError::AliasNeedsFlag => String::from_str(
                "alias selection requires --git or --sg flag in non-interactive mode",
            ),
            SupgitError::AliasEndMarkerMissing(sg) => if *sg {
                String::from_str("failed to find sg alias end marker")
            } else {
                String::from_str("failed to find alias end marker")
            },
            SupgitError::EmptyBranchName => String::from_str("branch name cannot be empty"),
            SupgitError::BranchNameWhitespace => String::from_str(
                "branch name cannot contain whitespace",
            ),
            SupgitError::CannotDeleteCurrentBranch(b) => String::from_str(
                "cannot delete the current branch '",
            ).concat(b.as_str()).concat("'; switch to another branch first"),
            SupgitError::BranchNotFound(b) => String::from_str("branch '").concat(b.as_str()).concat(
                "' does not exist",
            ),
            SupgitError::NoDeletableBranches => String::from_str(
                "no branches available to delete (cannot delete current branch)",
            ),
            SupgitError::BranchDeleteFailed(b, m) => String::from_str(
                "failed to delete branch '",
            ).concat(b.as_str()).concat("': ").concat(m.as_str()),
            SupgitError::CommitNeedsMessage => String::from_str(
                "commit requires --message in non-interactive mode",
            ),
            SupgitError::EmptyCommitMessage => String::from_str("commit message cannot be empty"),
            SupgitError::StagedConflict => String::from_str(
                "cannot combine --staged with --all or --unstaged",
            ),
            SupgitError::GitFailed(a, m) => String::from_str("git ").concat(a.as_str()).concat(
                " failed:\n  ",
            ).concat(m.as_str()),
            SupgitError::BinaryFile => String::from_str("binary file"),
            SupgitError::FileGone(p) => String::from_str("file '").concat(p.as_str()).concat(
                "' no longer exists",
            ),
            SupgitError::UntrackedDiffFailed(m) => String::from_str(
                "git diff --no-index failed:\n  ",
            ).concat(m.as_str()),
            SupgitError::EmptyRemoteName => String::from_str("remote name cannot be empty"),
            SupgitError::RemoteNameWhitespace => String::from_str(
                "remote name cannot contain whitespace",
            ),
            SupgitError::EmptyRemoteUrl => String::from_str("remote URL cannot be empty"),
            SupgitError::EmptyNewRemoteUrl => String::from_str("new remote URL cannot be empty"),
            SupgitError::NoRemotesToRemove => String::from_str("no remotes to remove"),
            SupgitError::NoRemotesToModify => String::from_str("no remotes to modify"),
            SupgitError::NoBranchesAvailable => String::from_str("No branches available"),
        }
    }
}

} // verus!
