use supgit::error::SupgitError;

fn s(x: &str) -> String {
    x.to_string()
}

#[test]
fn error_messages_are_the_printed_texts() {
    let cases: Vec<(SupgitError, &str)> = vec![
        (SupgitError::NotInRepo, "not inside a git repository"),
        (SupgitError::RepoRootFailed(s("boom")), "failed to get repo root: boom"),
        (SupgitError::PorcelainFailed(s("bad")), "git status --porcelain failed: bad"),
        (
            SupgitError::MissingSubcommand,
            "'supgit' requires a subcommand; use --help to see the available list",
        ),
        (SupgitError::CloneNeedsUrl, "'clone' requires a URL argument; use 'supgit clone <url>'"),
        (SupgitError::UnparsedCommand, "failed to parse selected command"),
        (SupgitError::AddNeedsTwoArgs, "--add requires exactly two arguments: <name> <url>"),
        (SupgitError::SetUrlNeedsTwoArgs, "--set-url requires exactly two arguments: <name> <url>"),
        (SupgitError::BothAliasFlags, "Cannot use both --git and --sg flags"),
        (
            SupgitError::AliasNeedsFlag,
            "alias selection requires --git or --sg flag in non-interactive mode",
        ),
        (SupgitError::AliasEndMarkerMissing(false), "failed to find alias end marker"),
        (SupgitError::AliasEndMarkerMissing(true), "failed to find sg alias end marker"),
        (SupgitError::EmptyBranchName, "branch name cannot be empty"),
        (SupgitError::BranchNameWhitespace, "branch name cannot contain whitespace"),
        (
            SupgitError::CannotDeleteCurrentBranch(s("main")),
            "cannot delete the current branch 'main'; switch to another branch first",
        ),
        (SupgitError::BranchNotFound(s("x")), "branch 'x' does not exist"),
        (
            SupgitError::NoDeletableBranches,
            "no branches available to delete (cannot delete current branch)",
        ),
        (
            SupgitError::BranchDeleteFailed(s("f"), s("error: nope")),
            "failed to delete branch 'f': error: nope",
        ),
        (SupgitError::CommitNeedsMessage, "commit requires --message in non-interactive mode"),
        (SupgitError::EmptyCommitMessage, "commit message cannot be empty"),
        (SupgitError::StagedConflict, "cannot combine --staged with --all or --unstaged"),
        (SupgitError::GitFailed(s("push origin"), s("rejected")), "git push origin failed:\n  rejected"),
        (SupgitError::BinaryFile, "binary file"),
        (SupgitError::FileGone(s("a.txt")), "file 'a.txt' no longer exists"),
        (SupgitError::UntrackedDiffFailed(s("oops")), "git diff --no-index failed:\n  oops"),
        (SupgitError::EmptyRemoteName, "remote name cannot be empty"),
        (SupgitError::RemoteNameWhitespace, "remote name cannot contain whitespace"),
        (SupgitError::EmptyRemoteUrl, "remote URL cannot be empty"),
        (SupgitError::EmptyNewRemoteUrl, "new remote URL cannot be empty"),
        (SupgitError::NoRemotesToRemove, "no remotes to remove"),
        (SupgitError::NoRemotesToModify, "no remotes to modify"),
        (SupgitError::NoBranchesAvailable, "No branches available"),
    ];
    for (e, text) in cases {
        assert_eq!(e.message(), text);
    }
}
