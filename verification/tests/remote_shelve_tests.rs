use supgit::error::SupgitError;
use supgit::remote::{
    add_remote, get_remotes, remote_detail_lines, remote_listing_lines, remote_menu_action,
    remote_input_check, RemoteInput, remote_menu_items, remote_output_is_well_formed, remove_remote, set_remote_url, RemoteAction,
    RemoteInfo,
};
use supgit::shelve::{
    shelve_request, ShelveRequest,
    apply_stash, clear_stash, create_stash, format_stash_label, get_stashes, shelve_menu_action,
    shelve_menu_items, stash_choice, stash_labels, stash_listing_lines, unshelve_stash, ShelveAction,
    StashChoice, StashInfo,
};

fn strings(v: &[&str]) -> Vec<String> {
    v.iter().map(|s| s.to_string()).collect()
}

// --- remote -----------------------------------------------------------------

const REMOTE_V: &str = "origin\thttps://example.com/a.git (fetch)\norigin\thttps://example.com/a.git (push)\nup\tgit@host:b.git (push)\n";

#[test]
fn remotes_are_grouped_by_name() {
    assert!(remote_output_is_well_formed(REMOTE_V));
    let rs = get_remotes(REMOTE_V);
    assert_eq!(rs.len(), 2);
    assert_eq!(rs[0].name, "origin");
    assert_eq!(rs[0].fetch_url.as_deref(), Some("https://example.com/a.git "));
    assert_eq!(rs[0].push_url.as_deref(), Some("https://example.com/a.git"));
    assert_eq!(rs[1].name, "up");
    assert_eq!(rs[1].fetch_url, None);
    assert_eq!(rs[1].push_url.as_deref(), Some("git@host:b.git"));
}

#[test]
fn remote_lines_without_tab_or_kind_are_skipped() {
    let rs = get_remotes("\n  \nnotab\norigin\turl (other)\n");
    assert!(rs.is_empty());
}

#[test]
fn remote_names_are_unique_on_example() {
    let rs = get_remotes("a\tu1 (fetch)\nb\tu2 (fetch)\na\tu3 (push)\nb\tu4 (push)\n");
    let names: Vec<&str> = rs.iter().map(|r| r.name.as_str()).collect();
    assert_eq!(names, vec!["a", "b"]);
}

#[test]
fn a_short_push_field_is_not_well_formed() {
    assert!(!remote_output_is_well_formed("o\t(push)\n"));
    assert!(remote_output_is_well_formed("o\tx (push)\n"));
}

#[test]
fn add_remote_checks_and_trims() {
    let c = add_remote(" origin ", " https://x ").unwrap();
    assert_eq!(c.args, strings(&["remote", "add", "origin", "https://x"]));
    assert_eq!(c.message, "✓ Added remote 'origin' (https://x)");
    assert!(matches!(add_remote("  ", "u"), Err(SupgitError::EmptyRemoteName)));
    assert!(matches!(add_remote("my remote", "u"), Err(SupgitError::RemoteNameWhitespace)));
    assert!(matches!(add_remote("o", "   "), Err(SupgitError::EmptyRemoteUrl)));
}

#[test]
fn remove_and_set_url() {
    let c = remove_remote(" up ").unwrap();
    assert_eq!(c.args, strings(&["remote", "remove", "up"]));
    assert_eq!(c.message, "✓ Removed remote 'up'");
    assert!(matches!(remove_remote(""), Err(SupgitError::EmptyRemoteName)));
    let c = set_remote_url("o", " u2 ").unwrap();
    assert_eq!(c.args, strings(&["remote", "set-url", "o", "u2"]));
    assert_eq!(c.message, "✓ Set URL of 'o' to 'u2'");
    assert!(matches!(set_remote_url(" ", "u"), Err(SupgitError::EmptyRemoteName)));
    assert!(matches!(set_remote_url("o", ""), Err(SupgitError::EmptyNewRemoteUrl)));
}

fn remote(name: &str, fetch: Option<&str>, push: Option<&str>) -> RemoteInfo {
    RemoteInfo {
        name: name.to_string(),
        fetch_url: fetch.map(|s| s.to_string()),
        push_url: push.map(|s| s.to_string()),
    }
}

#[test]
fn remote_listing_and_menu() {
    assert_eq!(
        remote_listing_lines(&Vec::new()),
        strings(&["No remotes configured.", "Use 'supgit remote add <name> <url>' to add a remote."])
    );
    let rs = vec![remote("o", Some("f"), None)];
    assert_eq!(
        remote_listing_lines(&rs),
        strings(&["Configured remotes:", "  o: fetch=f, push=(not set)"])
    );
    assert_eq!(
        remote_menu_items(&rs),
        strings(&["o (f)", "Add a new remote...", "Remove a remote...", "Change remote URL..."])
    );
    assert_eq!(
        remote_detail_lines(&remote("o", None, Some("p"))),
        strings(&["\nRemote: o", "  Fetch: (not set)", "  Push:  p"])
    );
}

#[test]
fn remote_menu_actions() {
    assert!(matches!(remote_menu_action(0, 2), Ok(RemoteAction::Show(0))));
    assert!(matches!(remote_menu_action(2, 2), Ok(RemoteAction::Add)));
    assert!(matches!(remote_menu_action(3, 2), Ok(RemoteAction::Remove)));
    assert!(matches!(remote_menu_action(4, 2), Ok(RemoteAction::ChangeUrl)));
    assert!(matches!(remote_menu_action(0, 0), Ok(RemoteAction::Add)));
    assert!(matches!(remote_menu_action(1, 0), Err(SupgitError::NoRemotesToRemove)));
    assert!(matches!(remote_menu_action(2, 0), Err(SupgitError::NoRemotesToModify)));
}

// --- shelve -----------------------------------------------------------------

#[test]
fn stashes_are_numbered_by_line() {
    let s = "stash@{0}: On main: wip\n\nstash@{2}: WIP on dev: abc\n";
    let st = get_stashes(s);
    assert_eq!(st.len(), 2);
    assert_eq!(st[0].index, 0);
    assert_eq!(st[0].message, "stash@{0}: On main: wip");
    assert_eq!(st[1].index, 2);
    assert!(st[0].index < st[1].index);
}

#[test]
fn stash_message_after_empty_braces_prefix() {
    let st = get_stashes("stash@{}: On main: note\n");
    assert_eq!(st[0].message, "On main: note");
}

#[test]
fn stash_commands() {
    let c = create_stash(Some("save this"));
    assert_eq!(c.args, strings(&["stash", "push", "-m", "save this"]));
    assert_eq!(c.message, "✓ Stashed changes");
    assert_eq!(create_stash(Some("  ")).args, strings(&["stash", "push"]));
    assert_eq!(create_stash(None).args, strings(&["stash", "push"]));
    let c = apply_stash(3, false);
    assert_eq!(c.args, strings(&["stash", "apply", "stash@{3}"]));
    assert_eq!(c.message, "✓ Applied stash@{3}");
    let c = apply_stash(12, true);
    assert_eq!(c.args, strings(&["stash", "drop", "stash@{12}"]));
    assert_eq!(c.message, "✓ Dropped stash@{12}");
    let c = unshelve_stash(0);
    assert_eq!(c.args, strings(&["stash", "pop", "stash@{0}"]));
    assert_eq!(c.message, "✓ Unshelved stash@{0}");
    let c = clear_stash();
    assert_eq!(c.args, strings(&["stash", "clear"]));
    assert_eq!(c.message, "✓ Cleared all stashes");
}

#[test]
fn stash_ref_reads_back() {
    for n in [0usize, 7, 42, 1000] {
        let c = apply_stash(n, false);
        let r = &c.args[2];
        let inner = &r["stash@{".len()..r.len() - 1];
        assert_eq!(inner.parse::<usize>().unwrap(), n);
    }
}

fn stash(index: usize, message: &str) -> StashInfo {
    StashInfo { index, message: message.to_string() }
}

#[test]
fn stash_labels_and_listing() {
    let st = vec![stash(0, "a"), stash(2, "b")];
    assert_eq!(format_stash_label(&st[1]), "stash@{2}: b");
    assert_eq!(stash_labels(&st), strings(&["stash@{0}: a", "stash@{2}: b"]));
    assert_eq!(
        stash_listing_lines(&st, true),
        strings(&["Stashed changes:", "  stash@{0}: a", "  stash@{2}: b"])
    );
    assert_eq!(
        stash_listing_lines(&Vec::new(), true),
        strings(&[
            "No stashes found.",
            "Use 'supgit shelve' or 'supgit shelve save <message>' to create one."
        ])
    );
    assert_eq!(stash_listing_lines(&Vec::new(), false), strings(&["No stashes found."]));
}

#[test]
fn shelve_menu_lines() {
    assert_eq!(
        shelve_menu_items(&vec![stash(0, "a")]),
        strings(&[
            "stash@{0}: a",
            "Apply and keep (git stash apply)",
            "Apply and remove (git stash pop)",
            "Save current changes (stash push)",
            "Clear all stashes"
        ])
    );
    assert_eq!(
        shelve_menu_items(&Vec::new()),
        strings(&["Save current changes (stash push)", "Clear all stashes"])
    );
}

#[test]
fn shelve_menu_actions_with_stashes() {
    assert!(matches!(shelve_menu_action(0, 2), ShelveAction::Stash(0)));
    assert!(matches!(shelve_menu_action(1, 2), ShelveAction::Stash(1)));
    assert!(matches!(shelve_menu_action(2, 2), ShelveAction::ApplyKeep));
    assert!(matches!(shelve_menu_action(3, 2), ShelveAction::ApplyPop));
    assert!(matches!(shelve_menu_action(4, 2), ShelveAction::Save));
    assert!(matches!(shelve_menu_action(5, 2), ShelveAction::Clear));
    assert!(matches!(shelve_menu_action(6, 2), ShelveAction::Nothing));
}

#[test]
fn shelve_menu_actions_without_stashes() {
    assert!(matches!(shelve_menu_action(0, 0), ShelveAction::Save));
    assert!(matches!(shelve_menu_action(1, 0), ShelveAction::NothingToClear));
    assert!(matches!(shelve_menu_action(2, 0), ShelveAction::Nothing));
}

#[test]
fn stash_sub_menu() {
    match stash_choice(0, 4) {
        StashChoice::Apply(c) => assert_eq!(c.args, strings(&["stash", "apply", "stash@{4}"])),
        _ => panic!("expected Apply"),
    }
    match stash_choice(1, 4) {
        StashChoice::Pop(c) => assert_eq!(c.args, strings(&["stash", "pop", "stash@{4}"])),
        _ => panic!("expected Pop"),
    }
    match stash_choice(2, 4) {
        StashChoice::Drop(c) => assert_eq!(c.message, "✓ Dropped stash@{4}"),
        _ => panic!("expected Drop"),
    }
    assert!(matches!(stash_choice(3, 4), StashChoice::Nothing));
}

#[test]
fn shelve_menu_picks_follow_labels() {
    let empty = shelve_menu_items(&Vec::new());
    assert_eq!(empty[0], "Save current changes (stash push)");
    assert!(matches!(shelve_menu_action(0, 0), ShelveAction::Save));
    assert_eq!(empty[1], "Clear all stashes");
    assert!(matches!(shelve_menu_action(1, 0), ShelveAction::NothingToClear));
    let st = vec![stash(0, "a")];
    for (i, label) in shelve_menu_items(&st).iter().enumerate() {
        let a = shelve_menu_action(i, st.len());
        match label.as_str() {
            "Apply and keep (git stash apply)" => assert!(matches!(a, ShelveAction::ApplyKeep)),
            "Apply and remove (git stash pop)" => assert!(matches!(a, ShelveAction::ApplyPop)),
            "Save current changes (stash push)" => assert!(matches!(a, ShelveAction::Save)),
            "Clear all stashes" => assert!(matches!(a, ShelveAction::Clear)),
            _ => assert!(matches!(a, ShelveAction::Stash(j) if j == i)),
        }
    }
}

#[test]
fn shelve_options_precedence() {
    assert!(matches!(shelve_request(Some("m".to_string()), Some(1), None, None, true, true), ShelveRequest::List));
    assert!(matches!(shelve_request(Some("m".to_string()), Some(1), None, None, true, false), ShelveRequest::Save(ref m) if m == "m"));
    assert!(matches!(shelve_request(None, Some(1), Some(2), None, true, false), ShelveRequest::Apply(1)));
    assert!(matches!(shelve_request(None, None, Some(2), Some(3), true, false), ShelveRequest::Unshelve(2)));
    assert!(matches!(shelve_request(None, None, None, Some(3), true, false), ShelveRequest::Drop(3)));
    assert!(matches!(shelve_request(None, None, None, None, true, false), ShelveRequest::Clear));
    assert!(matches!(shelve_request(None, None, None, None, false, false), ShelveRequest::Menu));
}

#[test]
fn blank_remote_answers_are_refused() {
    assert!(remote_input_check(RemoteInput::Name, "origin").is_ok());
    assert!(matches!(remote_input_check(RemoteInput::Name, "  "), Err(SupgitError::EmptyRemoteName)));
    assert!(matches!(remote_input_check(RemoteInput::Url, ""), Err(SupgitError::EmptyRemoteUrl)));
    assert!(matches!(remote_input_check(RemoteInput::NewUrl, "\t"), Err(SupgitError::EmptyNewRemoteUrl)));
    assert!(remote_input_check(RemoteInput::NewUrl, " https://x ").is_ok());
}
