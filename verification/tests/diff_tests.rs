use supgit::diff::{
    build_diff_entries, canonical_git_path, classify_change, count_file_lines, diff_output_text,
    diff_selector_items, diff_selector_prompt, format_selector_item, no_diff_files_message,
    numstat_args, parse_numstat_output, parse_numstat_value, run_diff, show_diff_for_path,
    tracked_change_counts, untracked_change_counts, ChangeType, DiffCandidate, DiffRequest,
    FileDiffEntry,
};
use supgit::error::SupgitError;
use supgit::plan::GitOutput;

fn strings(v: &[&str]) -> Vec<String> {
    v.iter().map(|s| s.to_string()).collect()
}

fn out(success: bool, code: Option<i32>, stdout: &str, stderr: &str) -> GitOutput {
    GitOutput { success, code, stdout: stdout.to_string(), stderr: stderr.to_string() }
}

fn entry(st: &str, path: &str) -> (String, String) {
    (st.to_string(), path.to_string())
}

#[test]
fn change_labels() {
    assert_eq!(ChangeType::Modified.label(), "modified");
    assert_eq!(ChangeType::Created.label(), "created");
    assert_eq!(ChangeType::Deleted.label(), "deleted");
    assert_eq!(ChangeType::Renamed.label(), "renamed");
    assert_eq!(ChangeType::Copied.label(), "copied");
    assert_eq!(ChangeType::TypeChanged.label(), "type-changed");
    assert_eq!(ChangeType::Unmerged.label(), "unmerged");
    assert_eq!(ChangeType::Untracked.label(), "created");
}

#[test]
fn classify_by_side() {
    assert_eq!(classify_change("M ", true), Some(ChangeType::Modified));
    assert_eq!(classify_change("M ", false), None);
    assert_eq!(classify_change(" D", false), Some(ChangeType::Deleted));
    assert_eq!(classify_change("AM", true), Some(ChangeType::Created));
    assert_eq!(classify_change("AM", false), Some(ChangeType::Modified));
    assert_eq!(classify_change("R ", true), Some(ChangeType::Renamed));
    assert_eq!(classify_change("C ", true), Some(ChangeType::Copied));
    assert_eq!(classify_change(" T", false), Some(ChangeType::TypeChanged));
    assert_eq!(classify_change("UU", true), Some(ChangeType::Unmerged));
    assert_eq!(classify_change("??", false), Some(ChangeType::Untracked));
    assert_eq!(classify_change("??", true), None);
    assert_eq!(classify_change("", false), None);
}

#[test]
fn rename_paths_resolve_to_target() {
    assert_eq!(canonical_git_path("old.rs -> new.rs"), "new.rs");
    assert_eq!(canonical_git_path("plain.rs"), "plain.rs");
    assert_eq!(canonical_git_path("a -> b -> c"), "b -> c");
}

#[test]
fn numstat_values() {
    assert_eq!(parse_numstat_value("12"), Some(12));
    assert_eq!(parse_numstat_value("-"), None);
    assert_eq!(parse_numstat_value("x"), None);
    assert_eq!(parse_numstat_value(""), None);
}

#[test]
fn numstat_output_first_line() {
    assert_eq!(parse_numstat_output("3\t1\tsrc/a.rs\n"), (Some(3), Some(1)));
    assert_eq!(parse_numstat_output("-\t-\timg.png\n"), (None, None));
    assert_eq!(parse_numstat_output(""), (Some(0), Some(0)));
    assert_eq!(parse_numstat_output("7\n"), (Some(7), None));
    assert_eq!(parse_numstat_output("5\t2\n9\t9\tb\n"), (Some(5), Some(2)));
}

#[test]
fn numstat_arguments() {
    assert_eq!(numstat_args("a.rs", false), strings(&["diff", "--numstat", "--", "a.rs"]));
    assert_eq!(numstat_args("a.rs", true), strings(&["diff", "--numstat", "--staged", "--", "a.rs"]));
}

#[test]
fn tracked_counts_from_output() {
    assert_eq!(tracked_change_counts("a", false, &out(true, Some(0), "4\t0\ta\n", "")).unwrap(), (Some(4), Some(0)));
    match tracked_change_counts("a", true, &out(false, Some(128), "", " fatal: bad \n")) {
        Err(SupgitError::GitFailed(a, m)) => {
            assert_eq!(a, "diff --numstat --staged -- a");
            assert_eq!(m, "fatal: bad");
        }
        other => panic!("unexpected {:?}", other),
    }
}

#[test]
fn file_line_counts() {
    assert_eq!(count_file_lines(b"a\nb\n").unwrap(), 2);
    assert_eq!(count_file_lines(b"a\nb").unwrap(), 2);
    assert_eq!(count_file_lines(b"").unwrap(), 0);
    assert_eq!(count_file_lines(b"\n\n\n").unwrap(), 3);
    assert!(matches!(count_file_lines(b"a\0b"), Err(SupgitError::BinaryFile)));
}

#[test]
fn untracked_counts() {
    assert_eq!(untracked_change_counts(Some(b"x\ny\n")), (Some(2), Some(0)));
    assert_eq!(untracked_change_counts(Some(b"\0")), (None, Some(0)));
    assert_eq!(untracked_change_counts(None), (None, Some(0)));
}

#[test]
fn diff_candidates_follow_status_order() {
    let es = vec![
        entry(" M", "a.rs"),
        entry("M ", "b.rs"),
        entry("??", "n.txt"),
        entry("R ", "o -> p"),
    ];
    let unstaged = build_diff_entries(&es, false);
    assert_eq!(unstaged.len(), 2);
    assert_eq!(unstaged[0].display_path, "a.rs");
    assert_eq!(unstaged[0].change_type, ChangeType::Modified);
    assert_eq!(unstaged[1].display_path, "n.txt");
    assert_eq!(unstaged[1].change_type, ChangeType::Untracked);
    let staged = build_diff_entries(&es, true);
    assert_eq!(staged.len(), 2);
    assert_eq!(staged[1].display_path, "o -> p");
    assert_eq!(staged[1].git_path, "p");
    assert_eq!(staged[1].change_type, ChangeType::Renamed);
}

fn candidate(path: &str, t: ChangeType) -> DiffCandidate {
    DiffCandidate { display_path: path.to_string(), git_path: path.to_string(), change_type: t }
}

#[test]
fn selector_lines() {
    let e = FileDiffEntry::new(candidate("a.rs", ChangeType::Modified), Some(3), Some(10));
    assert_eq!(e.additions, Some(3));
    assert_eq!(format_selector_item(&e), "a.rs [modified] (+3 -10)");
    let b = FileDiffEntry::new(candidate("img.png", ChangeType::Untracked), None, Some(0));
    assert_eq!(format_selector_item(&b), "img.png [created] (binary)");
    assert_eq!(
        diff_selector_items(&vec![e, b]),
        strings(&["a.rs [modified] (+3 -10)", "img.png [created] (binary)", "Cancel"])
    );
    assert_eq!(diff_selector_items(&Vec::new()), strings(&["Cancel"]));
}

#[test]
fn selector_texts() {
    assert_eq!(diff_selector_prompt(true), "Select a staged file to view its diff");
    assert_eq!(diff_selector_prompt(false), "Select an unstaged file to view its diff");
    assert_eq!(no_diff_files_message(true), "No staged files to diff.");
    assert_eq!(no_diff_files_message(false), "No unstaged files to diff.");
}

#[test]
fn run_diff_requests() {
    match run_diff(Some("x.rs".to_string()), true) {
        DiffRequest::ShowPath { path, staged, untracked } => {
            assert_eq!(path, "x.rs");
            assert!(staged);
            assert!(!untracked);
        }
        DiffRequest::Select { .. } => panic!("expected ShowPath"),
    }
    assert!(matches!(run_diff(None, false), DiffRequest::Select { staged: false }));
}

#[test]
fn show_diff_arguments() {
    assert_eq!(
        show_diff_for_path("a.rs", true, false),
        strings(&["-c", "color.ui=always", "diff", "--staged", "--", "a.rs"])
    );
    assert_eq!(
        show_diff_for_path("a.rs", false, false),
        strings(&["-c", "color.ui=always", "diff", "--", "a.rs"])
    );
    assert_eq!(
        show_diff_for_path("n.txt", false, true),
        strings(&["diff", "--no-index", "--color=always", "--", "/dev/null", "n.txt"])
    );
}

#[test]
fn diff_output_texts() {
    assert_eq!(diff_output_text("a", false, false, &out(true, Some(0), "+x\n", "")).unwrap(), "+x\n");
    assert_eq!(
        diff_output_text("a", false, false, &out(true, Some(0), " \n", "")).unwrap(),
        "No diff output for 'a'.\n"
    );
    assert_eq!(diff_output_text("n", false, true, &out(false, Some(1), "+new\n", "")).unwrap(), "+new\n");
    match diff_output_text("n", false, true, &out(false, Some(2), "", " no such file ")) {
        Err(SupgitError::UntrackedDiffFailed(m)) => assert_eq!(m, "no such file"),
        other => panic!("unexpected {:?}", other),
    }
    match diff_output_text("a", true, false, &out(false, Some(128), "", "bad\n")) {
        Err(SupgitError::GitFailed(a, m)) => {
            assert_eq!(a, "-c color.ui=always diff --staged -- a");
            assert_eq!(m, "bad");
        }
        other => panic!("unexpected {:?}", other),
    }
}

#[test]
fn file_gone_message() {
    assert_eq!(SupgitError::FileGone("x".to_string()).message(), "file 'x' no longer exists");
}
