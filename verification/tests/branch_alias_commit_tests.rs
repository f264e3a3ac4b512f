use supgit::alias::{
    alias_block, alias_exists, alias_for_selection, alias_name, remove_alias_block,
    resolve_alias_flags, shell_config_name, AliasKind,
};
use supgit::branch::{
    branch_request, BranchRequest,
    branch_delete_outcome, branch_menu_action, branch_menu_items, create_branch, deletable_branches,
    delete_branch, force_delete_branch, new_branch_from_input, BranchAction, DeleteOutcome,
};
use supgit::commit::{
    commit_is_interactive, commit_push_call, commit_scope_flags, committing_line, log_shows_commits,
    plan_commit, pushing_line,
};
use supgit::error::SupgitError;
use supgit::plan::GitOutput;

fn strings(v: &[&str]) -> Vec<String> {
    v.iter().map(|s| s.to_string()).collect()
}

fn out(success: bool, stdout: &str, stderr: &str) -> GitOutput {
    GitOutput { success, code: None, stdout: stdout.to_string(), stderr: stderr.to_string() }
}

// --- branch -----------------------------------------------------------------

#[test]
fn create_branch_trims_and_checks_out() {
    let c = create_branch("  feature-x ").unwrap();
    assert_eq!(c.args, strings(&["checkout", "-b", "feature-x"]));
    assert_eq!(c.message, "✓ Created and switched to branch 'feature-x'");
}

#[test]
fn create_branch_refuses_blank_and_whitespace() {
    assert!(matches!(create_branch("   "), Err(SupgitError::EmptyBranchName)));
    assert!(matches!(create_branch(""), Err(SupgitError::EmptyBranchName)));
    assert!(matches!(create_branch("my branch"), Err(SupgitError::BranchNameWhitespace)));
    assert!(matches!(create_branch("a\tb"), Err(SupgitError::BranchNameWhitespace)));
}

#[test]
fn delete_branch_checks_name_current_and_existence() {
    let bs = strings(&["main", "dev", "old"]);
    let c = delete_branch(" old ", "main", &bs).unwrap();
    assert_eq!(c.args, strings(&["branch", "-d", "old"]));
    assert_eq!(c.message, "✓ Deleted branch 'old'");
    assert!(matches!(delete_branch(" ", "main", &bs), Err(SupgitError::EmptyBranchName)));
    match delete_branch("main", "main", &bs) {
        Err(e @ SupgitError::CannotDeleteCurrentBranch(_)) => assert_eq!(
            e.message(),
            "cannot delete the current branch 'main'; switch to another branch first"
        ),
        other => panic!("unexpected {:?}", other),
    }
    match delete_branch("nope", "main", &bs) {
        Err(e @ SupgitError::BranchNotFound(_)) => {
            assert_eq!(e.message(), "branch 'nope' does not exist")
        }
        other => panic!("unexpected {:?}", other),
    }
}

#[test]
fn deletable_branches_leave_out_the_current_one() {
    let bs = strings(&["main", "dev", "main", "x"]);
    assert_eq!(deletable_branches(&bs, "main").unwrap(), strings(&["dev", "x"]));
    assert!(matches!(
        deletable_branches(&strings(&["main"]), "main"),
        Err(SupgitError::NoDeletableBranches)
    ));
    assert!(matches!(deletable_branches(&Vec::new(), "main"), Err(SupgitError::NoDeletableBranches)));
}

#[test]
fn branch_delete_outcomes() {
    match branch_delete_outcome("dev", &out(true, "", "")).unwrap() {
        DeleteOutcome::Deleted(m) => assert_eq!(m, "✓ Deleted branch 'dev'"),
        DeleteOutcome::NotFullyMerged => panic!("wrong outcome"),
    }
    assert!(matches!(
        branch_delete_outcome("dev", &out(false, "", "error: The branch 'dev' is not fully merged.")),
        Ok(DeleteOutcome::NotFullyMerged)
    ));
    match branch_delete_outcome("dev", &out(false, "", " error: locked \n")) {
        Err(SupgitError::BranchDeleteFailed(b, m)) => {
            assert_eq!(b, "dev");
            assert_eq!(m, "error: locked");
        }
        other => panic!("unexpected {:?}", other.is_ok()),
    }
}

#[test]
fn force_delete_uses_capital_d() {
    let c = force_delete_branch("dev");
    assert_eq!(c.args, strings(&["branch", "-D", "dev"]));
    assert_eq!(c.message, "✓ Force deleted branch 'dev'");
}

#[test]
fn branch_menu_marks_current_and_adds_actions() {
    let items = branch_menu_items(&strings(&["main", "dev"]), "dev");
    assert_eq!(
        items,
        strings(&["main", "dev (current)", "Create new branch...", "Delete a branch..."])
    );
}

#[test]
fn branch_menu_actions() {
    let bs = strings(&["main", "dev"]);
    assert!(matches!(branch_menu_action(2, &bs, "main"), BranchAction::Create));
    assert!(matches!(branch_menu_action(3, &bs, "main"), BranchAction::Delete));
    match branch_menu_action(0, &bs, "main") {
        BranchAction::AlreadyOn(m) => assert_eq!(m, "Already on branch 'main'."),
        _ => panic!("expected AlreadyOn"),
    }
    match branch_menu_action(1, &bs, "main") {
        BranchAction::Checkout(c) => {
            assert_eq!(c.args, strings(&["checkout", "dev"]));
            assert_eq!(c.message, "✓ Switched to branch 'dev'");
        }
        _ => panic!("expected Checkout"),
    }
}

#[test]
fn new_branch_input_makes_spaces_hyphens() {
    let c = new_branch_from_input("  my new branch ").unwrap();
    assert_eq!(c.args, strings(&["checkout", "-b", "my-new-branch"]));
    assert_eq!(c.message, "✓ Created and switched to branch 'my-new-branch'");
    assert!(matches!(new_branch_from_input(""), Err(SupgitError::EmptyBranchName)));
}

// --- alias ------------------------------------------------------------------

#[test]
fn alias_names_and_selection() {
    assert_eq!(alias_name(AliasKind::Git), "git");
    assert_eq!(alias_name(AliasKind::Sg), "sg");
    assert_eq!(alias_for_selection(0), AliasKind::Git);
    assert_eq!(alias_for_selection(1), AliasKind::Sg);
}

#[test]
fn alias_flags_resolution() {
    assert!(matches!(resolve_alias_flags(true, true, false), Err(SupgitError::BothAliasFlags)));
    assert!(matches!(resolve_alias_flags(true, false, true), Ok(Some(AliasKind::Git))));
    assert!(matches!(resolve_alias_flags(false, true, true), Ok(Some(AliasKind::Sg))));
    assert!(matches!(resolve_alias_flags(false, false, true), Err(SupgitError::AliasNeedsFlag)));
    assert!(matches!(resolve_alias_flags(false, false, false), Ok(None)));
}

#[test]
fn shell_config_by_shell() {
    assert_eq!(shell_config_name("/bin/zsh"), ".zshrc");
    assert_eq!(shell_config_name("/usr/bin/bash"), ".bashrc");
    assert_eq!(shell_config_name(""), ".bashrc");
}

#[test]
fn alias_blocks_are_exact() {
    assert_eq!(
        alias_block(AliasKind::Git),
        "\n# >>> supgit alias >>>\nalias git='supgit'\n# <<< supgit alias <<<\n"
    );
    assert_eq!(
        alias_block(AliasKind::Sg),
        "\n# >>> supgit sg alias >>>\nalias sg='supgit'\n# <<< supgit sg alias <<<\n"
    );
}

#[test]
fn alias_presence() {
    assert!(alias_exists(AliasKind::Git, "x\n# >>> supgit alias >>>\n"));
    assert!(!alias_exists(AliasKind::Git, "alias git='supgit'"));
    assert!(alias_exists(AliasKind::Sg, "alias sg='something'"));
    assert!(!alias_exists(AliasKind::Sg, "# >>> supgit sg alias >>>"));
}

#[test]
fn alias_present_after_append_on_example() {
    for k in [AliasKind::Git, AliasKind::Sg] {
        let content = format!("export PATH=x\n{}", alias_block(k));
        assert!(alias_exists(k, &content));
    }
}

#[test]
fn removing_an_appended_block_restores_the_file() {
    for k in [AliasKind::Git, AliasKind::Sg] {
        let before = "export A=1\nexport B=2\n\n";
        let with_block = format!("{}{}", before, alias_block(k));
        let back = remove_alias_block(k, &with_block).unwrap().unwrap();
        assert_eq!(back, before.trim_end());
    }
}

#[test]
fn removing_keeps_text_after_the_block() {
    let c = "a\n# >>> supgit alias >>>\nalias git='supgit'\n# <<< supgit alias <<<\nb\n";
    assert_eq!(remove_alias_block(AliasKind::Git, c).unwrap().unwrap(), "a\nb");
    let c = "# >>> supgit alias >>>\nalias git='supgit'\n# <<< supgit alias <<<";
    assert_eq!(remove_alias_block(AliasKind::Git, c).unwrap().unwrap(), "");
}

#[test]
fn removing_without_block_or_end_marker() {
    assert!(matches!(remove_alias_block(AliasKind::Git, "nothing here"), Ok(None)));
    assert!(matches!(
        remove_alias_block(AliasKind::Git, "# >>> supgit alias >>>\nalias git='supgit'\n"),
        Err(SupgitError::AliasEndMarkerMissing(false))
    ));
    assert!(matches!(
        remove_alias_block(AliasKind::Sg, "# >>> supgit sg alias >>>\n"),
        Err(SupgitError::AliasEndMarkerMissing(true))
    ));
}

// --- commit -----------------------------------------------------------------

#[test]
fn commit_interactivity() {
    assert!(matches!(
        commit_is_interactive(false, false, false, false, true),
        Err(SupgitError::CommitNeedsMessage)
    ));
    assert!(matches!(commit_is_interactive(false, false, false, false, false), Ok(true)));
    assert!(matches!(commit_is_interactive(true, false, false, false, true), Ok(false)));
    assert!(matches!(commit_is_interactive(false, true, false, false, true), Ok(false)));
}

#[test]
fn commit_scope_menu() {
    assert_eq!(commit_scope_flags(0), (false, true, false, false));
    assert_eq!(commit_scope_flags(1), (false, false, true, false));
    assert_eq!(commit_scope_flags(2), (true, false, false, false));
    assert_eq!(commit_scope_flags(3), (false, false, false, true));
    assert_eq!(commit_scope_flags(4), (false, false, false, false));
}

#[test]
fn plan_commit_all_with_amend_and_skip_hooks() {
    let p = plan_commit("fix it", true, false, false, true, true, true, &Vec::new()).unwrap();
    let s = p.staging.unwrap();
    assert_eq!(s.args, strings(&["add", "-A"]));
    assert_eq!(s.message, "Staged all files");
    assert!(!p.stage_in_root);
    assert_eq!(p.commit.args, strings(&["commit", "--amend", "--no-verify", "-m", "fix it"]));
    assert_eq!(p.commit.message, "Commit created");
    assert!(p.push);
    assert!(!p.amend_check);
}

#[test]
fn plan_commit_tracked_and_custom_files() {
    let p = plan_commit("m", false, false, true, false, false, false, &Vec::new()).unwrap();
    assert_eq!(p.staging.unwrap().args, strings(&["add", "-u"]));
    let files = strings(&["a.rs", "b.rs"]);
    let p = plan_commit("m", false, false, false, false, true, false, &files).unwrap();
    let s = p.staging.unwrap();
    assert_eq!(s.args, strings(&["add", "a.rs", "b.rs"]));
    assert_eq!(s.message, "Staged 2 file(s)");
    assert!(p.stage_in_root);
    assert!(p.amend_check);
    assert_eq!(p.commit.args, strings(&["commit", "--amend", "-m", "m"]));
}

#[test]
fn plan_commit_staged_only_stages_nothing() {
    let p = plan_commit("m", false, true, false, false, false, false, &Vec::new()).unwrap();
    assert!(p.staging.is_none());
    assert_eq!(p.commit.args, strings(&["commit", "-m", "m"]));
}

#[test]
fn plan_commit_refusals() {
    assert!(matches!(
        plan_commit("   ", false, false, false, false, false, false, &Vec::new()),
        Err(SupgitError::EmptyCommitMessage)
    ));
    assert!(matches!(
        plan_commit("m", true, true, false, false, false, false, &Vec::new()),
        Err(SupgitError::StagedConflict)
    ));
    assert!(matches!(
        plan_commit("m", false, true, true, false, false, false, &Vec::new()),
        Err(SupgitError::StagedConflict)
    ));
}

#[test]
fn commit_lines() {
    assert!(log_shows_commits(Some("abc123 first\n")));
    assert!(!log_shows_commits(Some("  \n")));
    assert!(!log_shows_commits(None));
    assert_eq!(committing_line(true), "Committing (amend)...");
    assert_eq!(committing_line(false), "Committing...");
    assert_eq!(pushing_line(Some("main")), "Pushing to main...");
    assert_eq!(pushing_line(None), "Pushing...");
    let c = commit_push_call();
    assert_eq!(c.args, strings(&["push"]));
    assert_eq!(c.message, "Pushed successfully");
}

#[test]
fn branch_options_precedence() {
    assert!(matches!(branch_request(Some("a".to_string()), Some("b".to_string())), BranchRequest::Create(ref n) if n == "a"));
    assert!(matches!(branch_request(None, Some("b".to_string())), BranchRequest::Delete(ref n) if n == "b"));
    assert!(matches!(branch_request(None, None), BranchRequest::Menu));
}
