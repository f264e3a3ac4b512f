use supgit::tag::{
    tag_name_problem, tag_request, TagRequest, checkout_tag, create_tag, delete_tag, get_tags, push_all_tags, push_tag, tag_create_message,
    tag_listing_lines, tag_menu_action, tag_menu_items, TagAction, TagInfo,
};
use supgit::worktree::{
    worktree_branch_choices, worktree_input_problem, worktree_request, WorktreeRequest, create_worktree, get_worktrees, prune_worktrees, remove_worktree, selected_branch_name,
    worktree_listing_lines, worktree_menu_action, worktree_menu_items, WorktreeAction, WorktreeInfo,
};

fn strings(v: &[&str]) -> Vec<String> {
    v.iter().map(|s| s.to_string()).collect()
}

// --- tag --------------------------------------------------------------------

#[test]
fn tags_from_listing() {
    let ts = get_tags("v1.0 | abc\n\nv2.0 release notes | x\n  plain  \n");
    assert_eq!(ts.len(), 3);
    assert_eq!(ts[0].name, "v1.0");
    assert_eq!(ts[0].message, None);
    assert!(!ts[0].is_annotated);
    assert_eq!(ts[1].name, "v2.0 release notes");
    assert_eq!(ts[1].message.as_deref(), Some("release notes"));
    assert!(ts[1].is_annotated);
    assert_eq!(ts[2].name, "plain");
}

#[test]
fn annotated_exactly_when_message_on_examples() {
    for t in get_tags("a\nb c\nd e f | g\n") {
        assert_eq!(t.is_annotated, t.message.is_some());
    }
}

#[test]
fn tag_commands() {
    let c = create_tag("v1", Some("first"), false);
    assert_eq!(c.args, strings(&["tag", "-a", "v1", "-m", "first"]));
    assert_eq!(c.message, "✓ Created annotated tag 'v1'");
    let c = create_tag("v1", None, true);
    assert_eq!(c.args, strings(&["tag", "-f", "v1"]));
    assert_eq!(c.message, "✓ Created lightweight tag 'v1'");
    assert!(create_tag("v2", Some(""), true).args.contains(&"-a".to_string()));
    let c = delete_tag("v1");
    assert_eq!(c.args, strings(&["tag", "-d", "v1"]));
    assert_eq!(c.message, "✓ Deleted tag 'v1'");
    let c = push_tag("v1", Some("origin"));
    assert_eq!(c.args, strings(&["push", "origin", "tag", "v1"]));
    assert_eq!(c.message, "✓ Pushed tag 'v1'");
    assert_eq!(push_tag("v1", None).args, strings(&["push", "tag", "v1"]));
    let c = push_all_tags(None);
    assert_eq!(c.args, strings(&["push", "--tags"]));
    assert_eq!(c.message, "✓ Pushed all tags");
    assert_eq!(push_all_tags(Some("up")).args, strings(&["push", "up", "--tags"]));
    let c = checkout_tag("v1");
    assert_eq!(c.args, strings(&["checkout", "v1"]));
    assert_eq!(c.message, "✓ Switched to tag 'v1'");
}

#[test]
fn annotate_forces_a_message() {
    assert_eq!(tag_create_message(None, true), Some(String::new()));
    assert_eq!(tag_create_message(Some("m".to_string()), true), Some("m".to_string()));
    assert_eq!(tag_create_message(Some("m".to_string()), false), Some("m".to_string()));
    assert_eq!(tag_create_message(None, false), None);
}

fn tag(name: &str, message: Option<&str>, annotated: bool) -> TagInfo {
    TagInfo { name: name.to_string(), message: message.map(|s| s.to_string()), is_annotated: annotated }
}

#[test]
fn tag_listing_and_menu() {
    let ts = vec![tag("v1", None, false), tag("v2 x", Some("x"), true)];
    assert_eq!(
        tag_listing_lines(&ts, true),
        strings(&["Tags:", "  v1", "  v2 x (annotated): x"])
    );
    assert_eq!(
        tag_listing_lines(&Vec::new(), true),
        strings(&["No tags found.", "Use 'supgit tag create <name>' to create one."])
    );
    assert_eq!(tag_listing_lines(&Vec::new(), false), strings(&["No tags found."]));
    assert_eq!(
        tag_menu_items(&ts),
        strings(&["v1", "v2 x (annotated)", "Delete a tag", "Push a tag", "Push all tags", "Create a new tag"])
    );
    assert_eq!(tag_menu_items(&Vec::new()), strings(&["Create a new tag"]));
}

#[test]
fn tag_menu_actions() {
    assert!(matches!(tag_menu_action(1, 2), TagAction::Checkout(1)));
    assert!(matches!(tag_menu_action(2, 2), TagAction::Delete));
    assert!(matches!(tag_menu_action(3, 2), TagAction::Push));
    assert!(matches!(tag_menu_action(4, 2), TagAction::PushAll));
    assert!(matches!(tag_menu_action(5, 2), TagAction::Create));
    assert!(matches!(tag_menu_action(6, 2), TagAction::Nothing));
    assert!(matches!(tag_menu_action(0, 0), TagAction::Create));
    assert!(matches!(tag_menu_action(1, 0), TagAction::Nothing));
}

// --- worktree ---------------------------------------------------------------

const WORKTREES: &str = "worktree /repo\nHEAD abc123\nbranch refs/heads/main\n\nworktree /repo-wt\nHEAD def456\ndetached\n";

#[test]
fn worktrees_from_porcelain_listing() {
    let ws = get_worktrees(WORKTREES);
    assert_eq!(ws.len(), 2);
    assert_eq!(ws[0].path, "/repo");
    assert_eq!(ws[0].branch.as_deref(), Some("refs/heads/main"));
    assert_eq!(ws[0].head.as_deref(), Some("abc123"));
    assert_eq!(ws[1].path, "/repo-wt");
    assert_eq!(ws[1].branch, None);
    assert_eq!(ws[1].head.as_deref(), Some("def456"));
}

#[test]
fn worktree_without_start_is_ignored() {
    assert!(get_worktrees("HEAD abc\nbranch x\n\n").is_empty());
    assert!(get_worktrees("").is_empty());
}

#[test]
fn worktree_commands() {
    let c = create_worktree("../wt", Some("feat"), true);
    assert_eq!(c.args, strings(&["worktree", "add", "-b", "feat", "../wt"]));
    assert_eq!(create_worktree("../wt", Some("main"), false).args, strings(&["worktree", "add", "../wt", "main"]));
    assert_eq!(create_worktree("../wt", None, true).args, strings(&["worktree", "add", "-b", "../wt"]));
    assert_eq!(c.message, "✓ Created worktree at '../wt'");
    assert_eq!(create_worktree("../wt", None, false).args, strings(&["worktree", "add", "../wt"]));
    let c = remove_worktree("../wt", true);
    assert_eq!(c.args, strings(&["worktree", "remove", "--force", "../wt"]));
    assert_eq!(c.message, "✓ Removed worktree at '../wt'");
    assert_eq!(remove_worktree("x", false).args, strings(&["worktree", "remove", "x"]));
    let c = prune_worktrees();
    assert_eq!(c.args, strings(&["worktree", "prune"]));
    assert_eq!(c.message, "✓ Pruned worktrees");
}

fn wt(path: &str, branch: Option<&str>, head: Option<&str>) -> WorktreeInfo {
    WorktreeInfo {
        path: path.to_string(),
        branch: branch.map(|s| s.to_string()),
        head: head.map(|s| s.to_string()),
    }
}

#[test]
fn worktree_listing_and_menu() {
    let ws = vec![wt("/a", Some("main"), Some("1")), wt("/b", None, Some("2")), wt("/c", None, None)];
    assert_eq!(
        worktree_listing_lines(&ws, true),
        strings(&["Worktrees:", "  /a (branch: main)", "  /b (detached: 2)", "  /c"])
    );
    assert_eq!(
        worktree_listing_lines(&Vec::new(), true),
        strings(&["No worktrees found.", "Use 'supgit worktree add <path> [--branch <name>]' to create one."])
    );
    assert_eq!(
        worktree_menu_items(&ws),
        strings(&["/a (main)", "/b (2)", "/c", "Remove a worktree", "Create a new worktree", "Prune stale worktrees"])
    );
    assert_eq!(
        worktree_menu_items(&Vec::new()),
        strings(&["Create a new worktree", "Prune stale worktrees"])
    );
}

#[test]
fn worktree_menu_actions() {
    assert!(matches!(worktree_menu_action(0, 2), WorktreeAction::RemoveThis(0)));
    assert!(matches!(worktree_menu_action(2, 2), WorktreeAction::Remove));
    assert!(matches!(worktree_menu_action(3, 2), WorktreeAction::Create));
    assert!(matches!(worktree_menu_action(4, 2), WorktreeAction::Prune));
    assert!(matches!(worktree_menu_action(5, 2), WorktreeAction::Nothing));
    assert!(matches!(worktree_menu_action(0, 0), WorktreeAction::Create));
    assert!(matches!(worktree_menu_action(1, 0), WorktreeAction::Prune));
    assert!(matches!(worktree_menu_action(2, 0), WorktreeAction::Nothing));
}

#[test]
fn selected_branch_loses_current_mark() {
    assert_eq!(selected_branch_name("* main"), "main");
    assert_eq!(selected_branch_name("feature"), "feature");
    assert_eq!(selected_branch_name("* * x"), "x");
}

#[test]
fn empty_menus_pick_their_only_lines() {
    let tags = tag_menu_items(&Vec::new());
    assert_eq!(tags[0], "Create a new tag");
    assert!(matches!(tag_menu_action(0, 0), TagAction::Create));
    let wts = worktree_menu_items(&Vec::new());
    assert_eq!(wts, strings(&["Create a new worktree", "Prune stale worktrees"]));
    assert!(matches!(worktree_menu_action(0, 0), WorktreeAction::Create));
    assert!(matches!(worktree_menu_action(1, 0), WorktreeAction::Prune));
}

#[test]
fn menu_picks_follow_labels_with_entries() {
    let ts = vec![tag("v1", None, false)];
    let items = tag_menu_items(&ts);
    for (i, label) in items.iter().enumerate() {
        let a = tag_menu_action(i, ts.len());
        match label.as_str() {
            "Delete a tag" => assert!(matches!(a, TagAction::Delete)),
            "Push a tag" => assert!(matches!(a, TagAction::Push)),
            "Push all tags" => assert!(matches!(a, TagAction::PushAll)),
            "Create a new tag" => assert!(matches!(a, TagAction::Create)),
            _ => assert!(matches!(a, TagAction::Checkout(j) if j == i)),
        }
    }
    let ws = vec![wt("/a", None, None)];
    let items = worktree_menu_items(&ws);
    for (i, label) in items.iter().enumerate() {
        let a = worktree_menu_action(i, ws.len());
        match label.as_str() {
            "Remove a worktree" => assert!(matches!(a, WorktreeAction::Remove)),
            "Create a new worktree" => assert!(matches!(a, WorktreeAction::Create)),
            "Prune stale worktrees" => assert!(matches!(a, WorktreeAction::Prune)),
            _ => assert!(matches!(a, WorktreeAction::RemoveThis(j) if j == i)),
        }
    }
}

#[test]
fn tag_options_precedence() {
    assert!(matches!(tag_request(Some("v1".to_string()), None, None, false, None, false, false, true), TagRequest::List));
    match tag_request(Some("v1".to_string()), Some("v0".to_string()), None, true, None, true, false, false) {
        TagRequest::Create(c) => {
            assert_eq!(c.args, strings(&["tag", "-a", "v1", "-m", ""]));
            assert_eq!(c.message, "✓ Created annotated tag 'v1'");
        }
        _ => panic!("expected Create"),
    }
    match tag_request(None, Some("v0".to_string()), Some("v2".to_string()), false, None, false, false, false) {
        TagRequest::Delete(c) => assert_eq!(c.args, strings(&["tag", "-d", "v0"])),
        _ => panic!("expected Delete"),
    }
    match tag_request(None, None, Some("v2".to_string()), true, None, false, false, false) {
        TagRequest::Push(c) => assert_eq!(c.args, strings(&["push", "tag", "v2"])),
        _ => panic!("expected Push"),
    }
    match tag_request(None, None, None, true, None, false, false, false) {
        TagRequest::PushAll(c) => assert_eq!(c.args, strings(&["push", "--tags"])),
        _ => panic!("expected PushAll"),
    }
    assert!(matches!(tag_request(None, None, None, false, Some("m".to_string()), true, true, false), TagRequest::Menu));
}

#[test]
fn worktree_options_precedence() {
    assert!(matches!(worktree_request(Some("p".to_string()), None, None, false, false, true, true), WorktreeRequest::List));
    match worktree_request(Some("../p".to_string()), Some("x".to_string()), Some("feat".to_string()), true, false, true, false) {
        WorktreeRequest::Add(c) => assert_eq!(c.args, strings(&["worktree", "add", "-b", "feat", "../p"])),
        _ => panic!("expected Add"),
    }
    match worktree_request(None, Some("x".to_string()), None, false, true, true, false) {
        WorktreeRequest::Remove(c) => assert_eq!(c.args, strings(&["worktree", "remove", "--force", "x"])),
        _ => panic!("expected Remove"),
    }
    match worktree_request(None, None, None, false, false, true, false) {
        WorktreeRequest::Prune(c) => assert_eq!(c.args, strings(&["worktree", "prune"])),
        _ => panic!("expected Prune"),
    }
    assert!(matches!(worktree_request(None, None, Some("b".to_string()), true, true, false, false), WorktreeRequest::Menu));
}

#[test]
fn blank_inputs_are_named() {
    assert_eq!(worktree_input_problem("  ", true), Some("Path cannot be empty."));
    assert_eq!(worktree_input_problem("", false), Some("Branch name cannot be empty."));
    assert_eq!(worktree_input_problem("../p", true), None);
    assert_eq!(tag_name_problem(" \t"), Some("Tag name cannot be empty."));
    assert_eq!(tag_name_problem("v1"), None);
}

#[test]
fn worktree_branch_choices_from_listing() {
    assert_eq!(
        worktree_branch_choices("* main\n  dev\n\n  remotes/origin/main\n").unwrap(),
        strings(&["* main", "dev", "remotes/origin/main"])
    );
    assert!(matches!(worktree_branch_choices("  \n"), Err(supgit::error::SupgitError::NoBranchesAvailable)));
}
