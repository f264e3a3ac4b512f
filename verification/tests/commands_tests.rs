use supgit::cli::{
    command_for_selection, command_menu_items, corrected_args, extract_unrecognized_subcommand,
    get_command_names, init_call, log_args, operand_args, remote_request, RemoteRequest, needs_repo_check, parse_command_from_name, remote_pair,
    status_args, SupgitCommand,
};
use supgit::error::SupgitError;
use supgit::plan::{GitOutput, Request};
use supgit::reset::{
    reset_all, reset_custom_calls, reset_menu_mode, reset_staged, reset_tracked, reset_unstaged,
    reset_untracked, run_reset, ResetMode, ResetRequest,
};
use supgit::stage::{stage_files_call, stage_menu_choice, stage_targets, StageChoice};
use supgit::unstage::{restore_stage, unstage_files_call, unstage_menu_choice, UnstageChoice};
use supgit::update::{update_available, update_check_due, update_check_record, UPDATE_CHECK_INTERVAL_SECS};

fn strings(v: &[&str]) -> Vec<String> {
    v.iter().map(|s| s.to_string()).collect()
}

fn entry(st: &str, path: &str) -> (String, String) {
    (st.to_string(), path.to_string())
}

fn run_args(r: Request) -> (Vec<String>, String) {
    match r {
        Request::Run(c) => (c.args, c.message),
        Request::Prompt => panic!("expected a command"),
    }
}

// --- stage / unstage --------------------------------------------------------

#[test]
fn stage_requests() {
    assert!(matches!(stage_targets(&Vec::new(), false, false), Request::Prompt));
    assert_eq!(
        run_args(stage_targets(&Vec::new(), true, true)),
        (strings(&["add", "-A"]), "✓ Staged all files".to_string())
    );
    assert_eq!(
        run_args(stage_targets(&strings(&["x"]), false, true)),
        (strings(&["add", "-u"]), "✓ Staged tracked files".to_string())
    );
    assert_eq!(
        run_args(stage_targets(&strings(&["a", "b"]), false, false)),
        (strings(&["add", "a", "b"]), "✓ Staged files".to_string())
    );
}

#[test]
fn stage_menu() {
    match stage_menu_choice(0) {
        StageChoice::Run(c) => assert_eq!(c.args, strings(&["add", "-A"])),
        _ => panic!("expected Run"),
    }
    match stage_menu_choice(1) {
        StageChoice::Run(c) => {
            assert_eq!(c.args, strings(&["add", "-u"]));
            assert_eq!(c.message, "✓ Staged tracked files");
        }
        _ => panic!("expected Run"),
    }
    assert!(matches!(stage_menu_choice(2), StageChoice::PickFiles));
    assert!(matches!(stage_menu_choice(3), StageChoice::Nothing));
    let c = stage_files_call(&strings(&["a", "b", "c"]));
    assert_eq!(c.args, strings(&["add", "a", "b", "c"]));
    assert_eq!(c.message, "✓ Staged 3 file(s)");
}

#[test]
fn unstage_requests() {
    assert!(matches!(restore_stage(&Vec::new(), false, false), Request::Prompt));
    assert_eq!(
        run_args(restore_stage(&Vec::new(), false, true)),
        (strings(&["restore", "--staged", "."]), "✓ All files unstaged (non-interactive mode)".to_string())
    );
    assert_eq!(
        run_args(restore_stage(&strings(&["x"]), true, false)),
        (strings(&["restore", "--staged", "."]), "✓ All files unstaged".to_string())
    );
    assert_eq!(
        run_args(restore_stage(&strings(&["x", "y"]), false, true)),
        (strings(&["restore", "--staged", "x", "y"]), "✓ Files unstaged".to_string())
    );
}

#[test]
fn unstage_menu() {
    match unstage_menu_choice(0) {
        UnstageChoice::Run(c) => {
            assert_eq!(c.args, strings(&["restore", "--staged", "."]));
            assert_eq!(c.message, "✓ All files unstaged");
        }
        _ => panic!("expected Run"),
    }
    assert!(matches!(unstage_menu_choice(1), UnstageChoice::PickFiles));
    assert!(matches!(unstage_menu_choice(2), UnstageChoice::Nothing));
    let c = unstage_files_call(&strings(&["a"]));
    assert_eq!(c.args, strings(&["restore", "--staged", "a"]));
    assert_eq!(c.message, "✓ Unstaged 1 file(s)");
}

// --- reset ------------------------------------------------------------------

#[test]
fn reset_requests() {
    assert!(matches!(run_reset(false, false, false, false, false, false), ResetRequest::Prompt));
    assert!(matches!(
        run_reset(false, false, false, false, false, true),
        ResetRequest::Run { mode: ResetMode::All, note: true }
    ));
    assert!(matches!(
        run_reset(true, true, false, false, false, false),
        ResetRequest::Run { mode: ResetMode::All, note: false }
    ));
    assert!(matches!(
        run_reset(false, true, true, false, false, false),
        ResetRequest::Run { mode: ResetMode::Staged, note: false }
    ));
    assert!(matches!(
        run_reset(false, false, true, true, false, false),
        ResetRequest::Run { mode: ResetMode::Unstaged, note: false }
    ));
    assert!(matches!(
        run_reset(false, false, false, true, true, false),
        ResetRequest::Run { mode: ResetMode::TrackedFiles, note: false }
    ));
    assert!(matches!(
        run_reset(false, false, false, false, true, false),
        ResetRequest::Run { mode: ResetMode::Untracked, note: false }
    ));
}

#[test]
fn reset_menu() {
    assert_eq!(reset_menu_mode(0), Some(ResetMode::All));
    assert_eq!(reset_menu_mode(3), Some(ResetMode::TrackedFiles));
    assert_eq!(reset_menu_mode(5), Some(ResetMode::Custom));
    assert_eq!(reset_menu_mode(6), None);
}

#[test]
fn reset_plans() {
    let p = reset_all();
    assert_eq!(p.calls, vec![strings(&["reset", "--hard"]), strings(&["clean", "-fd"])]);
    assert_eq!(p.message, "✓ All files reset.");
    let p = reset_tracked();
    assert_eq!(p.calls, vec![strings(&["reset", "--hard"])]);
    assert_eq!(p.message, "✓ Tracked files reset.");
    let es = vec![entry("M ", "a"), entry("??", "n")];
    let p = reset_staged(&es);
    assert_eq!(p.calls, vec![strings(&["restore", "--staged", "."])]);
    assert_eq!(p.message, "✓ Staged files reset.");
    let p = reset_unstaged(&es);
    assert!(p.calls.is_empty());
    assert_eq!(p.message, "No unstaged changes to reset.");
    let p = reset_untracked(&es);
    assert_eq!(p.calls, vec![strings(&["clean", "-fd"])]);
    assert_eq!(p.message, "✓ Untracked files removed.");
    let none: Vec<(String, String)> = Vec::new();
    assert_eq!(reset_staged(&none).message, "No staged files to reset.");
    assert_eq!(reset_untracked(&none).message, "No untracked files to reset.");
    assert_eq!(reset_unstaged(&vec![entry(" M", "x")]).message, "✓ Unstaged changes reset.");
}

#[test]
fn reset_custom_file_by_status() {
    let es = vec![entry("MM", "both"), entry("??", "new"), entry(" M", "wt"), entry("A ", "idx")];
    assert_eq!(
        reset_custom_calls(&es, &"both".to_string()),
        vec![strings(&["restore", "--staged", "both"]), strings(&["restore", "both"])]
    );
    assert_eq!(reset_custom_calls(&es, &"new".to_string()), vec![strings(&["clean", "-f", "new"])]);
    assert_eq!(reset_custom_calls(&es, &"wt".to_string()), vec![strings(&["restore", "wt"])]);
    assert_eq!(
        reset_custom_calls(&es, &"idx".to_string()),
        vec![strings(&["restore", "--staged", "idx"])]
    );
    assert!(reset_custom_calls(&es, &"absent".to_string()).is_empty());
}

#[test]
fn reset_of_a_file_touches_that_file_only() {
    let es = vec![entry("MM", "f"), entry("??", "g")];
    for file in ["f", "g"] {
        for call in reset_custom_calls(&es, &file.to_string()) {
            assert_eq!(call.last().unwrap(), file);
            if call[0] == "clean" {
                assert_eq!(file, "g");
            }
        }
    }
}

// --- update -----------------------------------------------------------------

#[test]
fn update_interval_is_three_days() {
    assert_eq!(UPDATE_CHECK_INTERVAL_SECS, 259200);
}

#[test]
fn update_check_due_by_record() {
    assert!(update_check_due(None, Some(100)));
    assert!(update_check_due(Some("100"), None));
    assert!(update_check_due(Some("garbage"), Some(100)));
    assert!(!update_check_due(Some(" 1000\n"), Some(1000 + 259199)));
    assert!(update_check_due(Some("1000"), Some(1000 + 259200)));
    assert!(!update_check_due(Some("5000"), Some(10)));
}

#[test]
fn recorded_check_is_fresh_until_the_interval() {
    let t = 1_700_000_000u64;
    let record = update_check_record(t);
    assert_eq!(record, "1700000000");
    assert!(!update_check_due(Some(record.as_str()), Some(t)));
    assert!(!update_check_due(Some(record.as_str()), Some(t + UPDATE_CHECK_INTERVAL_SECS - 1)));
    assert!(update_check_due(Some(record.as_str()), Some(t + UPDATE_CHECK_INTERVAL_SECS)));
}

fn out(success: bool, stdout: &str, stderr: &str) -> GitOutput {
    GitOutput { success, code: None, stdout: stdout.to_string(), stderr: stderr.to_string() }
}

#[test]
fn update_available_from_cargo_output() {
    assert!(update_available(&out(true, "", "    Installing supgit v1.2.3\n")));
    assert!(update_available(&out(true, "Would install", "")));
    assert!(update_available(&out(true, "Would ", "install x")));
    assert!(!update_available(&out(true, "Ignored package `supgit v1.0.0` is already installed", "")));
    assert!(!update_available(&out(false, "Installing supgit", "")));
}

// --- cli --------------------------------------------------------------------

#[test]
fn command_table() {
    let names = get_command_names();
    assert_eq!(names.len(), 20);
    assert_eq!(names[0], "init");
    assert_eq!(names[13], "clone");
    assert_eq!(names[19], "tag");
    let items = command_menu_items();
    assert_eq!(items.len(), 20);
    assert_eq!(items[0], "init – Initialize a new Git repository");
    assert_eq!(items[12], "sync – Sync with remote (fetch, pull, push)");
}

#[test]
fn default_forms_parse() {
    assert!(matches!(parse_command_from_name("init"), Some(SupgitCommand::Init)));
    assert!(matches!(
        parse_command_from_name("stage"),
        Some(SupgitCommand::Stage { all: false, tracked_only: false, .. })
    ));
    assert!(matches!(parse_command_from_name("status"), Some(SupgitCommand::Status { short: false })));
    assert!(matches!(parse_command_from_name("update"), Some(SupgitCommand::Update)));
    assert!(matches!(
        parse_command_from_name("unalias"),
        Some(SupgitCommand::Unalias { dry_run: false, git: false, sg: false })
    ));
    assert!(parse_command_from_name("clone").is_none());
    assert!(matches!(
        parse_command_from_name("remote"),
        Some(SupgitCommand::Remote { add: None, remove: None, set_url: None })
    ));
    assert!(matches!(
        parse_command_from_name("shelve"),
        Some(SupgitCommand::Shelve { save: None, apply: None, unshelve: None, drop: None, clear: false, list: false })
    ));
    assert!(matches!(parse_command_from_name("worktree"), Some(SupgitCommand::Worktree { add: None, list: false, .. })));
    assert!(matches!(parse_command_from_name("tag"), Some(SupgitCommand::Tag { create: None, list: false, .. })));
    assert!(parse_command_from_name("bogus").is_none());
}

#[test]
fn every_default_form_is_in_the_menu() {
    let names = get_command_names();
    for n in ["init", "stage", "unstage", "status", "commit", "log", "diff", "reset", "branch", "push", "pull", "sync", "update", "alias", "unalias"] {
        assert!(parse_command_from_name(n).is_some());
        assert!(names.contains(&n));
    }
}

#[test]
fn menu_selection() {
    assert!(matches!(command_for_selection(0), Ok(SupgitCommand::Init)));
    assert!(matches!(command_for_selection(13), Err(SupgitError::CloneNeedsUrl)));
    assert!(matches!(command_for_selection(9), Ok(SupgitCommand::Remote { .. })));
    assert!(matches!(command_for_selection(17), Ok(SupgitCommand::Shelve { .. })));
    assert!(matches!(command_for_selection(18), Ok(SupgitCommand::Worktree { .. })));
    assert!(matches!(command_for_selection(19), Ok(SupgitCommand::Tag { .. })));
    assert!(matches!(command_for_selection(10), Ok(SupgitCommand::Push { remote: None, branch: None })));
}

#[test]
fn unrecognized_subcommands() {
    assert_eq!(
        extract_unrecognized_subcommand("error: unrecognized subcommand 'stauts'\n\nUsage"),
        Some("stauts".to_string())
    );
    assert_eq!(extract_unrecognized_subcommand("error: unexpected argument 'x'"), None);
    assert_eq!(extract_unrecognized_subcommand("unrecognized subcommand 'open"), None);
    assert_eq!(extract_unrecognized_subcommand("unrecognized subcommand"), None);
}

#[test]
fn corrected_arguments() {
    let args = strings(&["supgit", "-n", "stauts", "--short"]);
    assert_eq!(corrected_args(&args, "stauts", "status"), strings(&["supgit", "status", "--short"]));
    assert_eq!(corrected_args(&args, "zzz", "status"), strings(&["supgit", "status"]));
}

#[test]
fn repo_needs() {
    assert!(!needs_repo_check(&SupgitCommand::Init));
    assert!(!needs_repo_check(&SupgitCommand::Update));
    assert!(!needs_repo_check(&SupgitCommand::Clone { url: "u".to_string(), directory: None }));
    assert!(needs_repo_check(&SupgitCommand::Status { short: true }));
    assert!(needs_repo_check(&SupgitCommand::Log { short: false }));
}

#[test]
fn simple_commands() {
    let c = init_call();
    assert_eq!(c.args, strings(&["init"]));
    assert_eq!(c.message, "✓ Initialized Git repository");
    assert_eq!(status_args(true), strings(&["status", "-sb"]));
    assert_eq!(status_args(false), strings(&["status"]));
    assert_eq!(log_args(true), strings(&["log", "--oneline", "--decorate", "-n", "20"]));
    assert_eq!(log_args(false), strings(&["log", "--decorate", "-n", "40"]));
}

#[test]
fn remote_pairs() {
    let (a, b) = remote_pair(&strings(&["o", "u"]), true).unwrap();
    assert_eq!((a.as_str(), b.as_str()), ("o", "u"));
    assert!(matches!(remote_pair(&strings(&["o"]), true), Err(SupgitError::AddNeedsTwoArgs)));
    assert!(matches!(remote_pair(&strings(&["o", "u", "x"]), false), Err(SupgitError::SetUrlNeedsTwoArgs)));
}

#[test]
fn operands_follow_the_verb() {
    assert_eq!(operand_args("push", Some("origin"), Some("main")), strings(&["push", "origin", "main"]));
    assert_eq!(operand_args("pull", None, None), strings(&["pull"]));
    assert_eq!(operand_args("fetch", Some("up"), None), strings(&["fetch", "up"]));
    assert_eq!(operand_args("clone", Some("https://x/r.git"), Some("dir")), strings(&["clone", "https://x/r.git", "dir"]));
}

#[test]
fn every_menu_command_but_clone_runs() {
    let names = get_command_names();
    for (i, n) in names.iter().enumerate() {
        if *n == "clone" {
            assert!(matches!(command_for_selection(i), Err(SupgitError::CloneNeedsUrl)));
        } else {
            assert!(parse_command_from_name(n).is_some());
            assert!(command_for_selection(i).is_ok());
        }
    }
}

#[test]
fn remote_options_precedence() {
    let two = vec!["o".to_string(), "u".to_string()];
    match remote_request(Some(two.clone()), Some("x".to_string()), None) {
        Ok(RemoteRequest::Run(c)) => assert_eq!(c.args, strings(&["remote", "add", "o", "u"])),
        _ => panic!("expected add"),
    }
    assert!(matches!(remote_request(Some(vec!["o".to_string()]), None, None), Err(SupgitError::AddNeedsTwoArgs)));
    match remote_request(None, Some(" x ".to_string()), Some(two.clone())) {
        Ok(RemoteRequest::Run(c)) => assert_eq!(c.args, strings(&["remote", "remove", "x"])),
        _ => panic!("expected remove"),
    }
    match remote_request(None, None, Some(two)) {
        Ok(RemoteRequest::Run(c)) => assert_eq!(c.args, strings(&["remote", "set-url", "o", "u"])),
        _ => panic!("expected set-url"),
    }
    assert!(matches!(remote_request(None, None, Some(Vec::new())), Err(SupgitError::SetUrlNeedsTwoArgs)));
    assert!(matches!(remote_request(None, Some("".to_string()), None), Err(SupgitError::EmptyRemoteName)));
    assert!(matches!(remote_request(None, None, None), Ok(RemoteRequest::Menu)));
}
