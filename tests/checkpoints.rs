use checkpoint_sync::checkpoint::{validate_checkpoint_id, CheckpointError, CheckpointOutcome};
use checkpoint_sync::meta::{build_commit_message, decimal_text, extract_meta, format_timestamp};
use checkpoint_sync::plumbing::{command_failed, git_reply, join_path_text, GitCommand};
use checkpoint_sync::store::{create_checkpoint, delete_checkpoint, restore_checkpoint, Reply, Step};
use checkpoint_sync::text::trim_text;

fn args<T>(s: &Step<T>) -> Vec<String> {
    match s {
        Step::Git(GitCommand { args, .. }) => args.clone(),
        _ => panic!("expected a git step"),
    }
}

fn ok(s: &str) -> Reply {
    Reply::Output(Ok(s.to_string()))
}

fn failed() -> Reply {
    Reply::Output(Err(CheckpointError::Git { command: "git x".to_string(), message: String::new() }))
}

#[test]
fn invalid_ids_are_rejected() {
    for id in [
        "", "a/b", "a\\b", "a:b", "a?b", "a*b", "a[b", "a^b", "a~b", "a b", "a\tb", "a\u{7}b", ".a", "a.",
        "a.lock", "a..b", "a@{b", "a\u{3000}b", "a\u{85}b",
    ] {
        match validate_checkpoint_id(id) {
            Err(CheckpointError::InvalidCheckpointId(m)) => assert_eq!(m, format!("Invalid checkpoint_id: {id}")),
            other => panic!("{id:?} gave {other:?}"),
        }
    }
}

#[test]
fn valid_ids_are_accepted() {
    for id in ["cp1", "turn-3_a", "a.b", "lock", "x.locks", "@", "a{b"] {
        assert!(validate_checkpoint_id(id).is_ok(), "{id}");
    }
}

#[test]
fn invalid_id_runs_no_command() {
    let (_, step) = create_checkpoint("/repo", "bad id");
    assert!(matches!(step, Step::Done(Err(CheckpointError::InvalidCheckpointId(_)))));
    let (_, step) = restore_checkpoint("/repo", "a/b");
    assert!(matches!(step, Step::Done(Err(CheckpointError::InvalidCheckpointId(_)))));
    let (_, step) = delete_checkpoint("/repo", "..");
    assert!(matches!(step, Step::Done(Err(CheckpointError::InvalidCheckpointId(_)))));
}

#[test]
fn create_runs_the_full_sequence() {
    let (mut run, step) = create_checkpoint("/repo", "cp1");
    assert_eq!(args(&step), vec!["rev-parse", "--is-inside-work-tree"]);
    let step = run.advance(ok("true"));
    assert_eq!(args(&step), vec!["rev-parse", "--git-dir"]);
    let step = run.advance(ok(".git"));
    match &step {
        Step::CheckMergeState(d) => assert_eq!(d, "/repo/.git"),
        _ => panic!(),
    }
    let step = run.advance(Reply::MergeState(false));
    assert_eq!(args(&step), vec!["rev-parse", "-q", "--verify", "HEAD"]);
    let step = run.advance(ok("h1"));
    assert_eq!(args(&step), vec!["write-tree"]);
    let step = run.advance(ok("t1"));
    assert!(matches!(step, Step::MakeScratchIndex));
    let step = run.advance(Reply::ScratchIndex(Ok("/tmp/x/index".to_string())));
    match &step {
        Step::Git(c) => {
            assert_eq!(c.args, vec!["read-tree", "t1"]);
            assert_eq!(c.envs, vec![("GIT_INDEX_FILE".to_string(), "/tmp/x/index".to_string())]);
        }
        _ => panic!(),
    }
    let step = run.advance(ok(""));
    assert_eq!(args(&step), vec!["add", "-A", "--", "."]);
    let step = run.advance(ok(""));
    assert_eq!(args(&step), vec!["write-tree"]);
    let step = run.advance(ok("w1"));
    assert!(matches!(step, Step::ReadClock));
    let step = run.advance(Reply::Clock(Ok(1700000000)));
    match &step {
        Step::Git(c) => {
            assert_eq!(c.args, vec!["commit-tree", "w1"]);
            assert_eq!(
                c.stdin.as_deref(),
                Some("checkpoint:cp1\nhead h1\nindex-tree t1\nworktree-tree w1\ncreated 1700000000 +0000\n")
            );
            assert_eq!(c.envs.len(), 6);
            assert_eq!(c.envs[0], ("GIT_AUTHOR_NAME".to_string(), "Checkpointer".to_string()));
            assert_eq!(c.envs[5], ("GIT_COMMITTER_DATE".to_string(), "1700000000 +0000".to_string()));
        }
        _ => panic!(),
    }
    let step = run.advance(ok("c1"));
    assert_eq!(args(&step), vec!["update-ref", "refs/conductor-checkpoints/cp1", "c1"]);
    let step = run.advance(ok(""));
    assert!(matches!(step, Step::Done(Ok(CheckpointOutcome::Created))));
}

#[test]
fn create_skips_during_a_merge() {
    let (mut run, _) = create_checkpoint("/repo", "cp1");
    run.advance(ok("true"));
    run.advance(ok("/abs/.git"));
    match run.advance(Reply::MergeState(true)) {
        Step::Done(Ok(CheckpointOutcome::Skipped { reason })) => assert_eq!(reason, "Merge or rebase in progress"),
        _ => panic!(),
    }
}

#[test]
fn create_skips_without_commits() {
    let (mut run, _) = create_checkpoint("/repo", "cp1");
    run.advance(ok("true"));
    run.advance(ok(".git"));
    run.advance(Reply::MergeState(false));
    match run.advance(failed()) {
        Step::Done(Ok(CheckpointOutcome::Skipped { reason })) => assert_eq!(reason, "Repository has no commits"),
        _ => panic!(),
    }
    let (mut run, _) = create_checkpoint("/repo", "cp1");
    run.advance(ok("true"));
    run.advance(ok(".git"));
    run.advance(Reply::MergeState(false));
    match run.advance(ok("0000000000000000000000000000000000000000")) {
        Step::Done(Ok(CheckpointOutcome::Skipped { .. })) => {}
        _ => panic!(),
    }
}

#[test]
fn create_outside_a_worktree_fails() {
    let (mut run, _) = create_checkpoint("/repo", "cp1");
    match run.advance(ok("false")) {
        Step::Done(Err(CheckpointError::NotARepository(m))) => assert_eq!(m, "Checkpoint requires a git worktree"),
        _ => panic!(),
    }
}

#[test]
fn create_passes_command_failures_on() {
    let (mut run, _) = create_checkpoint("/repo", "cp1");
    run.advance(ok("true"));
    run.advance(ok(".git"));
    run.advance(Reply::MergeState(false));
    run.advance(ok("h"));
    assert!(matches!(run.advance(failed()), Step::Done(Err(CheckpointError::Git { .. }))));
    let (mut run, _) = create_checkpoint("/repo", "cp1");
    assert!(matches!(
        run.advance(Reply::Clock(Ok(1))),
        Step::Done(Err(CheckpointError::InvalidState(_)))
    ));
}

#[test]
fn restore_runs_in_order() {
    let (mut run, step) = restore_checkpoint("/repo", "cp1");
    assert_eq!(args(&step), vec!["rev-parse", "--is-inside-work-tree"]);
    let step = run.advance(ok("true"));
    assert_eq!(args(&step), vec!["rev-parse", "-q", "--verify", "refs/conductor-checkpoints/cp1"]);
    let step = run.advance(ok("c1"));
    assert_eq!(args(&step), vec!["cat-file", "commit", "c1"]);
    let body = "tree w1\nauthor Checkpointer <checkpointer@noreply> 1 +0000\n\ncheckpoint:cp1\nhead h1\nindex-tree t1\nworktree-tree w1\ncreated 1 +0000\n";
    let step = run.advance(ok(body));
    assert_eq!(args(&step), vec!["reset", "--hard", "h1"]);
    let step = run.advance(ok(""));
    assert_eq!(args(&step), vec!["read-tree", "--reset", "-u", "w1"]);
    let step = run.advance(ok(""));
    assert_eq!(args(&step), vec!["clean", "-fd"]);
    let step = run.advance(ok(""));
    assert_eq!(args(&step), vec!["read-tree", "--reset", "t1"]);
    assert!(matches!(run.advance(ok("")), Step::Done(Ok(()))));
}

#[test]
fn restore_of_a_missing_checkpoint_fails() {
    let (mut run, _) = restore_checkpoint("/repo", "cp1");
    run.advance(ok("true"));
    match run.advance(failed()) {
        Step::Done(Err(CheckpointError::NotFound(m))) => assert_eq!(m, "Checkpoint not found: cp1"),
        _ => panic!(),
    }
}

#[test]
fn restore_refuses_unborn_and_incomplete_checkpoints() {
    let (mut run, _) = restore_checkpoint("/repo", "cp1");
    run.advance(ok("true"));
    run.advance(ok("c1"));
    let body = "checkpoint:cp1\nhead 0000000000000000000000000000000000000000\nindex-tree t\nworktree-tree w\n";
    match run.advance(ok(body)) {
        Step::Done(Err(CheckpointError::InvalidState(m))) => {
            assert_eq!(m, "Checkpoint saved with unborn HEAD and cannot be restored")
        }
        _ => panic!(),
    }
    let (mut run, _) = restore_checkpoint("/repo", "cp1");
    run.advance(ok("true"));
    run.advance(ok("c1"));
    match run.advance(ok("checkpoint:cp1\nhead h\nworktree-tree w\n")) {
        Step::Done(Err(CheckpointError::MissingMetadata(m))) => assert_eq!(m, "Checkpoint metadata missing: index-tree"),
        _ => panic!(),
    }
}

#[test]
fn restoring_twice_asks_the_same_commands() {
    let body = "checkpoint:cp1\nhead h1\nindex-tree t1\nworktree-tree w1\ncreated 1 +0000\n";
    let mut seen: Vec<Vec<Vec<String>>> = Vec::new();
    for noise in ["", "something else"] {
        let (mut run, first) = restore_checkpoint("/repo", "cp1");
        let mut cmds = vec![args(&first)];
        let mut step = run.advance(ok("true"));
        cmds.push(args(&step));
        step = run.advance(ok("c1"));
        cmds.push(args(&step));
        step = run.advance(ok(body));
        while let Step::Git(_) = step {
            cmds.push(args(&step));
            step = run.advance(ok(noise));
        }
        seen.push(cmds);
    }
    assert_eq!(seen[0], seen[1]);
}

#[test]
fn delete_removes_the_ref() {
    let (mut run, _) = delete_checkpoint("/repo", "cp1");
    let step = run.advance(ok("true"));
    assert_eq!(args(&step), vec!["update-ref", "-d", "refs/conductor-checkpoints/cp1"]);
    assert!(matches!(run.advance(ok("")), Step::Done(Ok(()))));
}

#[test]
fn metadata_round_trip() {
    let m = build_commit_message("cp1", "h1", "t1", "w1", "5 +0000");
    assert_eq!(extract_meta(&m, "head").unwrap(), "h1");
    assert_eq!(extract_meta(&m, "index-tree").unwrap(), "t1");
    assert_eq!(extract_meta(&m, "worktree-tree").unwrap(), "w1");
    assert_eq!(extract_meta(&m, "created").unwrap(), "5 +0000");
    match extract_meta(&m, "parent") {
        Err(CheckpointError::MissingMetadata(msg)) => assert_eq!(msg, "Checkpoint metadata missing: parent"),
        _ => panic!(),
    }
}

#[test]
fn metadata_lookup_details() {
    assert_eq!(extract_meta("head\t  abc  \r\n", "head").unwrap(), "abc");
    assert_eq!(extract_meta("headx y\nhead z", "head").unwrap(), "z");
    assert!(extract_meta("head   \n", "head").is_err());
}

#[test]
fn numbers_and_timestamps() {
    assert_eq!(decimal_text(0), "0");
    assert_eq!(decimal_text(1234567890123), "1234567890123");
    assert_eq!(decimal_text(u64::MAX), "18446744073709551615");
    assert_eq!(format_timestamp(42), "42 +0000");
}

#[test]
fn git_failures_are_reported() {
    let a = vec!["rev-parse".to_string(), "HEAD".to_string()];
    match command_failed(&a, "  fatal: bad \n", "", Some(128)) {
        CheckpointError::Git { command, message } => {
            assert_eq!(command, "git rev-parse HEAD");
            assert_eq!(message, "fatal: bad");
        }
        _ => panic!(),
    }
    match command_failed(&a, "", " out ", Some(1)) {
        CheckpointError::Git { message, .. } => assert_eq!(message, "out"),
        _ => panic!(),
    }
    match command_failed(&a, "", "", Some(3)) {
        CheckpointError::Git { message, .. } => assert_eq!(message, "exit code 3"),
        _ => panic!(),
    }
    assert_eq!(git_reply(&a, true, " abc\n", "", Some(0)).unwrap(), "abc");
    assert_eq!(
        CheckpointError::Git { command: "git x".into(), message: "m".into() }.message(),
        "Checkpoint git command failed (git x): m"
    );
}

#[test]
fn paths_and_trimming() {
    assert_eq!(join_path_text("/repo", ".git"), "/repo/.git");
    assert_eq!(join_path_text("/repo/", ".git"), "/repo/.git");
    assert_eq!(join_path_text("/repo", "/abs/.git"), "/abs/.git");
    assert_eq!(trim_text("\u{3000} a b \n"), "a b");
}

/// Runs `create` to its commit, answering with the given object ids, and
/// returns the message that the commit was asked to carry.
fn created_message(id: &str, head: &str, index_tree: &str, worktree_tree: &str) -> String {
    let (mut run, _) = create_checkpoint("/repo", id);
    run.advance(ok("true"));
    run.advance(ok(".git"));
    run.advance(Reply::MergeState(false));
    run.advance(ok(head));
    run.advance(ok(index_tree));
    run.advance(Reply::ScratchIndex(Ok("/tmp/s/index".to_string())));
    run.advance(ok(""));
    run.advance(ok(""));
    run.advance(ok(worktree_tree));
    match run.advance(Reply::Clock(Ok(9))) {
        Step::Git(c) => c.stdin.clone().unwrap(),
        _ => panic!(),
    }
}

#[test]
fn scenario_restore_brings_back_the_captured_tree() {
    // a.txt tracked with "1", b.txt untracked with "x": git gives the
    // working-tree tree "wt-ab" (both files) and the index tree "ix-a".
    let message = created_message("cp1", "head-1", "ix-a", "wt-ab");
    let body = format!("tree wt-ab\nauthor Checkpointer <checkpointer@noreply> 9 +0000\n\n{message}");
    // a.txt edited, b.txt deleted, c.txt created: restore still asks for the
    // captured trees, lays them over the reset tree, and cleans c.txt away.
    let (mut run, _) = restore_checkpoint("/repo", "cp1");
    run.advance(ok("true"));
    run.advance(ok("commit-1"));
    let mut asked = vec![];
    let mut step = run.advance(ok(&body));
    while let Step::Git(_) = step {
        asked.push(args(&step));
        step = run.advance(ok(""));
    }
    assert!(matches!(step, Step::Done(Ok(()))));
    assert_eq!(
        asked,
        vec![
            vec!["reset", "--hard", "head-1"],
            vec!["read-tree", "--reset", "-u", "wt-ab"],
            vec!["clean", "-fd"],
            vec!["read-tree", "--reset", "ix-a"],
        ]
    );
}

#[test]
fn scenario_unborn_repository() {
    let (mut run, _) = create_checkpoint("/repo", "cp1");
    run.advance(ok("true"));
    run.advance(ok(".git"));
    run.advance(Reply::MergeState(false));
    let mut wrote_ref = false;
    match run.advance(failed()) {
        Step::Done(Ok(CheckpointOutcome::Skipped { reason })) => assert_eq!(reason, "Repository has no commits"),
        Step::Git(c) => wrote_ref = c.args[0] == "update-ref",
        _ => panic!(),
    }
    assert!(!wrote_ref);
    let (mut run, _) = restore_checkpoint("/repo", "cp1");
    run.advance(ok("true"));
    match run.advance(failed()) {
        Step::Done(Err(CheckpointError::NotFound(m))) => assert_eq!(m, "Checkpoint not found: cp1"),
        _ => panic!(),
    }
}
