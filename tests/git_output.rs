use checkpoint_sync::git::{
    branch_exists, create_worktree, has_origin, inspect_repo, is_git_repo, list_branches, remove_worktree,
    repo_name_from_path, repo_name_from_url, resolve_repo_root, set_sparse_checkout, strip_origin, GitError,
};
use checkpoint_sync::status::{
    collect_numstat, count_untracked_lines, list_status, merge_counts, normalize_numstat_path, parse_numstat_value,
    split_pieces,
};

#[test]
fn repo_names_from_urls() {
    assert_eq!(repo_name_from_url("https://github.com/org/project.git"), "project");
    assert_eq!(repo_name_from_url("git@github.com:org/project.git/"), "project");
    assert_eq!(repo_name_from_url("host:project.git.git"), "project");
    assert_eq!(repo_name_from_url("plain"), "plain");
}

#[test]
fn repo_names_from_paths() {
    assert_eq!(repo_name_from_path("/home/me/project").as_deref(), Some("project"));
    assert_eq!(repo_name_from_path("/home/me/project/").as_deref(), Some("project"));
    assert_eq!(repo_name_from_path("/home/me/project/.").as_deref(), Some("project"));
    assert_eq!(repo_name_from_path("/home/me/.."), None);
    assert_eq!(repo_name_from_path("/"), None);
    assert_eq!(repo_name_from_path("."), None);
}

#[test]
fn repository_identity_names() {
    let id = inspect_repo("/src/app".to_string(), None, "main".to_string());
    assert_eq!(id.name, "app");
    let root = inspect_repo("/".to_string(), Some("u".to_string()), "dev".to_string());
    assert_eq!(root.name, "repository");
    assert_eq!(root.remote_url.as_deref(), Some("u"));
}

#[test]
fn branches_are_listed_trimmed() {
    let b = list_branches("main\n  feature/x \n\n");
    assert_eq!(b, vec!["main".to_string(), "feature/x".to_string()]);
    assert!(branch_exists(&b, "main"));
    assert!(!branch_exists(&b, "  "));
    assert!(!branch_exists(&b, "other"));
}

#[test]
fn origin_remote_and_default_branch() {
    assert!(has_origin("upstream\norigin\n"));
    assert!(!has_origin("upstream\norigins"));
    assert_eq!(strip_origin("origin/main").as_deref(), Some("main"));
    assert_eq!(strip_origin("main"), None);
}

#[test]
fn command_lines() {
    assert!(is_git_repo("true"));
    assert!(!is_git_repo("false"));
    assert_eq!(resolve_repo_root("/r"), vec!["-C", "/r", "rev-parse", "--show-toplevel"]);
    assert_eq!(
        create_worktree("/r", "/w", "b"),
        vec!["-C", "/r", "worktree", "add", "--no-track", "/w", "b"]
    );
    assert_eq!(remove_worktree("/r", "/w"), vec!["-C", "/r", "worktree", "remove", "/w"]);
}

#[test]
fn sparse_checkout_arguments() {
    assert_eq!(set_sparse_checkout("/w", &vec![]).unwrap(), vec!["-C", "/w", "sparse-checkout", "disable"]);
    assert_eq!(
        set_sparse_checkout("/w", &vec![" src ".to_string(), "".to_string(), "docs".to_string()]).unwrap(),
        vec!["-C", "/w", "sparse-checkout", "set", "src", "docs"]
    );
    match set_sparse_checkout("/w", &vec!["  ".to_string()]) {
        Err(GitError::MissingPath(m)) => assert_eq!(m, "Sparse checkout requires at least one pattern"),
        other => panic!("unexpected: {:?}", other),
    }
}

#[test]
fn numstat_values_and_paths() {
    assert_eq!(parse_numstat_value(" 12 "), Some(12));
    assert_eq!(parse_numstat_value("-"), None);
    assert_eq!(parse_numstat_value("+7"), Some(7));
    assert_eq!(parse_numstat_value("4294967296"), None);
    assert_eq!(parse_numstat_value("4294967295"), Some(4294967295));
    assert_eq!(parse_numstat_value("1x"), None);
    assert_eq!(normalize_numstat_path("a.txt"), "a.txt");
    assert_eq!(normalize_numstat_path("old.txt -> new.txt"), "new.txt");
    assert_eq!(normalize_numstat_path("dir/{a => b}.txt"), "b}.txt");
    assert_eq!(merge_counts(Some(1), Some(2)), Some(3));
    assert_eq!(merge_counts(Some(u32::MAX), Some(2)), Some(u32::MAX));
    assert_eq!(merge_counts(None, Some(2)), Some(2));
    assert_eq!(merge_counts(None, None), None);
}

#[test]
fn numstat_rows_are_read() {
    let rows = collect_numstat("1\t2\ta.txt\n-\t-\tbin.png\n3\t4\t\n");
    assert_eq!(rows.len(), 2);
    assert_eq!(rows[0].path, "a.txt");
    assert_eq!((rows[0].added, rows[0].deleted), (Some(1), Some(2)));
    assert_eq!((rows[1].added, rows[1].deleted), (None, None));
}

#[test]
fn status_entries_carry_counts() {
    let porcelain = " M a.txt\0R  new.txt\0old.txt\0?? c.txt\0";
    let entries = list_status(porcelain, "1\t1\ta.txt\n", "2\t0\ta.txt\n5\t0\tnew.txt\n");
    assert_eq!(entries.len(), 3);
    assert_eq!(entries[0].path, "a.txt");
    assert_eq!(entries[0].index_status, " ");
    assert_eq!(entries[0].worktree_status, "M");
    assert_eq!((entries[0].additions, entries[0].deletions), (Some(3), Some(1)));
    assert_eq!(entries[1].path, "old.txt");
    assert_eq!(entries[1].index_status, "R");
    assert_eq!(entries[2].path, "c.txt");
    assert_eq!((entries[2].additions, entries[2].deletions), (None, None));
    assert!(list_status("", "", "").is_empty());
}

#[test]
fn nul_pieces() {
    assert_eq!(split_pieces("a\0\0b\0", '\0'), vec!["a", "b"]);
}

#[test]
fn untracked_line_counts() {
    assert_eq!(count_untracked_lines(&b"a\nb\n".to_vec(), 100), Some(2));
    assert_eq!(count_untracked_lines(&b"a\nb".to_vec(), 100), Some(2));
    assert_eq!(count_untracked_lines(&b"".to_vec(), 100), Some(0));
    assert_eq!(count_untracked_lines(&b"a\0b".to_vec(), 100), None);
    assert_eq!(count_untracked_lines(&b"abcdef".to_vec(), 5), None);
}

#[test]
fn git_error_texts() {
    assert_eq!(GitError::MissingPath("x".into()).message(), "Git path error: x");
    assert_eq!(
        GitError::CommandFailed { command: "git a".into(), message: "b".into() }.message(),
        "Git command failed (git a): b"
    );
    assert_eq!(GitError::InvalidUtf8.message(), "Git output was not valid UTF-8");
}
