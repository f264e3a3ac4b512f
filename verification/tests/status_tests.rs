use supgit::error::SupgitError;
use supgit::plan::{call_with, git_call, literal_call, GitOutput};
use supgit::status::{
    get_all_uncommitted_files, get_branches, get_current_branch, get_porcelain_lines, get_repo_root,
    get_staged_files, get_unstaged_files, get_untracked_files, inside_work_tree, invalidate_porcelain_cache,
    invalidate_repo_root_cache, parse_porcelain_output, porcelain_output_is_well_formed,
    porcelain_lookup, repo_root_lookup, Lookup, PorcelainStatus, StatusCache,
};

fn out(success: bool, stdout: &str, stderr: &str) -> GitOutput {
    GitOutput {
        success,
        code: Some(if success { 0 } else { 1 }),
        stdout: stdout.to_string(),
        stderr: stderr.to_string(),
    }
}

fn entry(st: &str, path: &str) -> (String, String) {
    (st.to_string(), path.to_string())
}

fn sample() -> Vec<(String, String)> {
    vec![
        entry(" M", "src/a.rs"),
        entry("M ", "src/b.rs"),
        entry("MM", "both.rs"),
        entry("??", "new.txt"),
        entry("A ", "added.rs"),
        entry(" D", "gone.rs"),
        entry("R ", "old -> new"),
    ]
}

#[test]
fn porcelain_lines_are_cut_at_bytes_two_and_three() {
    let s = " M src/main.rs\n?? notes.txt\nA  x\n\nab\n";
    assert!(porcelain_output_is_well_formed(s));
    let e = parse_porcelain_output(s);
    assert_eq!(
        e,
        vec![entry(" M", "src/main.rs"), entry("??", "notes.txt"), entry("A ", "x")]
    );
}

#[test]
fn porcelain_short_lines_are_skipped() {
    assert!(parse_porcelain_output("abc\n\n M\n").is_empty());
}

#[test]
fn porcelain_line_cut_inside_a_character_is_refused() {
    assert!(!porcelain_output_is_well_formed("a€ x.txt\n"));
    assert!(porcelain_output_is_well_formed("ñ x.txt\n"));
    assert!(porcelain_output_is_well_formed("?? ñ.txt\n"));
    assert_eq!(parse_porcelain_output("?? ñ.txt\n"), vec![entry("??", "ñ.txt")]);
}

#[test]
fn unstaged_files_exclude_staged_and_untracked() {
    assert_eq!(get_unstaged_files(&sample()), vec!["src/a.rs".to_string(), "gone.rs".to_string()]);
}

#[test]
fn staged_files_by_index_column() {
    assert_eq!(
        get_staged_files(&sample()),
        vec![
            "src/b.rs".to_string(),
            "both.rs".to_string(),
            "added.rs".to_string(),
            "old -> new".to_string()
        ]
    );
}

#[test]
fn untracked_files_are_question_marks() {
    assert_eq!(get_untracked_files(&sample()), vec!["new.txt".to_string()]);
}

#[test]
fn all_uncommitted_files_in_order() {
    let all = get_all_uncommitted_files(&sample());
    assert_eq!(all.len(), 7);
    assert_eq!(all[0], "src/a.rs");
    assert_eq!(all[6], "old -> new");
}

#[test]
fn untracked_is_neither_staged_nor_unstaged_on_example() {
    let e = vec![entry("??", "u")];
    assert!(get_staged_files(&e).is_empty());
    assert!(get_unstaged_files(&e).is_empty());
    assert_eq!(get_untracked_files(&e), vec!["u".to_string()]);
}

#[test]
fn short_status_counts_as_spaces() {
    let e = vec![entry("", "p"), entry("M", "q")];
    assert!(get_unstaged_files(&e).is_empty());
    assert_eq!(get_staged_files(&e), vec!["q".to_string()]);
}

#[test]
fn porcelain_status_borrows_its_paths() {
    let p = PorcelainStatus::parse(sample());
    assert_eq!(p.unstaged_files(), vec!["src/a.rs", "gone.rs"]);
    assert_eq!(p.all_uncommitted_files().len(), 7);
}

#[test]
fn cache_starts_empty() {
    let c = StatusCache::new();
    assert!(c.porcelain_lines().is_none());
    assert!(c.repo_root().is_none());
}

#[test]
fn cache_reads_back_what_was_recorded() {
    let mut c = StatusCache::new();
    let r = get_porcelain_lines(&mut c, &out(true, " M a\n", ""));
    assert_eq!(r.unwrap(), vec![entry(" M", "a")]);
    assert_eq!(c.porcelain_lines(), Some(vec![entry(" M", "a")]));
    let root = get_repo_root(&mut c, &out(true, "/repo\n", "")).unwrap();
    assert_eq!(root, "/repo");
    assert_eq!(c.repo_root(), Some("/repo".to_string()));
    assert_eq!(c.porcelain_lines(), Some(vec![entry(" M", "a")]));
}

#[test]
fn cache_invalidation_forgets_one_part() {
    let mut c = StatusCache::new();
    get_porcelain_lines(&mut c, &out(true, "?? x\n", "")).unwrap();
    get_repo_root(&mut c, &out(true, "/r", "")).unwrap();
    invalidate_porcelain_cache(&mut c);
    assert!(c.porcelain_lines().is_none());
    assert_eq!(c.repo_root(), Some("/r".to_string()));
    invalidate_repo_root_cache(&mut c);
    assert!(c.repo_root().is_none());
}

#[test]
fn porcelain_failure_leaves_cache_and_reports_stderr() {
    let mut c = StatusCache::new();
    match get_porcelain_lines(&mut c, &out(false, "", "  fatal: boom \n")) {
        Err(SupgitError::PorcelainFailed(m)) => assert_eq!(m, "fatal: boom"),
        other => panic!("unexpected {:?}", other),
    }
    assert!(c.porcelain_lines().is_none());
}

#[test]
fn repo_root_errors() {
    let mut c = StatusCache::new();
    assert!(matches!(get_repo_root(&mut c, &out(true, "  \n", "")), Err(SupgitError::NotInRepo)));
    assert!(matches!(
        get_repo_root(&mut c, &out(false, "", "fatal: not a git repository (or any parent)")),
        Err(SupgitError::NotInRepo)
    ));
    match get_repo_root(&mut c, &out(false, "", " permission denied\n")) {
        Err(SupgitError::RepoRootFailed(m)) => assert_eq!(m, "permission denied"),
        other => panic!("unexpected {:?}", other),
    }
    assert!(c.repo_root().is_none());
}

#[test]
fn branches_are_trimmed_nonempty_lines() {
    assert_eq!(
        get_branches("  main \n\nfeature/x\n   \n"),
        vec!["main".to_string(), "feature/x".to_string()]
    );
    assert_eq!(get_current_branch(" main\n"), "main");
    assert_eq!(get_current_branch(""), "");
}

#[test]
fn calls_carry_arguments_and_message() {
    let c = literal_call(&["status", "--short"], "done");
    assert_eq!(c.args, vec!["status".to_string(), "--short".to_string()]);
    assert_eq!(c.message, "done");
    let c = call_with(&["add"], &vec!["a".to_string(), "b".to_string()], "ok".to_string());
    assert_eq!(c.args, vec!["add".to_string(), "a".to_string(), "b".to_string()]);
    let c = git_call(vec!["log".to_string()], String::new());
    assert_eq!(c.args, vec!["log".to_string()]);
    assert_eq!(c.message, "");
}

#[test]
fn work_tree_answer() {
    assert!(inside_work_tree(&out(true, "true\n", "")));
    assert!(!inside_work_tree(&out(true, "false\n", "")));
    assert!(!inside_work_tree(&out(false, "true", "fatal")));
}

#[test]
fn status_lists_are_disjoint_on_example() {
    let es = sample();
    let all = get_all_uncommitted_files(&es);
    let lists = [get_untracked_files(&es), get_staged_files(&es), get_unstaged_files(&es)];
    for (a, la) in lists.iter().enumerate() {
        let mut pos = 0;
        for p in la {
            let k = all[pos..].iter().position(|x| x == p).expect("in order within all paths");
            pos += k + 1;
        }
        for (b, lb) in lists.iter().enumerate() {
            if a != b {
                assert!(la.iter().all(|p| !lb.contains(p)));
            }
        }
    }
}

#[test]
fn cache_lookups_hit_or_ask_for_git() {
    let mut c = StatusCache::new();
    match porcelain_lookup(&c) {
        Lookup::Run(a) => assert_eq!(a, vec!["status".to_string(), "--porcelain".to_string()]),
        Lookup::Hit(_) => panic!("empty cache"),
    }
    match repo_root_lookup(&c) {
        Lookup::Run(a) => assert_eq!(a, vec!["rev-parse".to_string(), "--show-toplevel".to_string()]),
        Lookup::Hit(_) => panic!("empty cache"),
    }
    get_porcelain_lines(&mut c, &out(true, "?? x\n", "")).unwrap();
    get_repo_root(&mut c, &out(true, "/r\n", "")).unwrap();
    match porcelain_lookup(&c) {
        Lookup::Hit(e) => assert_eq!(e, vec![entry("??", "x")]),
        Lookup::Run(_) => panic!("cached"),
    }
    match repo_root_lookup(&c) {
        Lookup::Hit(p) => assert_eq!(p, "/r"),
        Lookup::Run(_) => panic!("cached"),
    }
}
