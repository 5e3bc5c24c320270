use checkpoint_sync::checkpoint::{CheckpointError, CheckpointOutcome};
use checkpoint_sync::live_sync::{
    after_sync_checkpoint, after_sync_restore, rollback_taken, should_ignore_event, should_ignore_path, start_disable,
    worker_next, CycleDecision, DisableStep, EnablePlan, EventPath, SyncEntry, SyncRegistry, Wake, WorkerAction,
};

fn entry(ws: &str, repo: &str) -> SyncEntry {
    SyncEntry {
        workspace_id: ws.to_string(),
        repo_root: repo.to_string(),
        rollback_checkpoint_id: format!("spotlight-rollback-{ws}-1"),
        sync_checkpoint_id: format!("spotlight-sync-{ws}"),
    }
}

#[test]
fn enable_plans() {
    let mut reg = SyncRegistry::new();
    match reg.plan_enable("w1", "/scratch", "/repo", 77) {
        EnablePlan::Start { rollback_checkpoint_id, sync_checkpoint_id } => {
            assert_eq!(rollback_checkpoint_id, "spotlight-rollback-w1-77");
            assert_eq!(sync_checkpoint_id, "spotlight-sync-w1");
        }
        _ => panic!(),
    }
    match reg.plan_enable("w1", "/repo", "/repo", 77) {
        EnablePlan::Refused(m) => assert_eq!(m, "Spotlight requires a separate worktree path"),
        _ => panic!(),
    }
    reg.register(entry("w1", "/repo"));
    assert!(reg.is_active("w1"));
    assert!(matches!(reg.plan_enable("w1", "/scratch", "/repo", 78), EnablePlan::AlreadyActive));
}

#[test]
fn second_session_on_one_repository_is_refused() {
    let mut reg = SyncRegistry::new();
    reg.register(entry("w1", "/repo"));
    match reg.plan_enable("w2", "/scratch2", "/repo", 5) {
        EnablePlan::Refused(m) => assert_eq!(m, "Spotlight already active for this repository"),
        _ => panic!("a second rollback checkpoint would be taken"),
    }
    assert!(matches!(reg.plan_enable("w2", "/scratch2", "/other", 5), EnablePlan::Start { .. }));
}

#[test]
fn take_returns_what_was_registered() {
    let mut reg = SyncRegistry::new();
    reg.register(entry("w1", "/a"));
    reg.register(entry("w2", "/b"));
    let e = reg.take("w1").unwrap();
    assert_eq!(e.repo_root, "/a");
    assert_eq!(e.rollback_checkpoint_id, "spotlight-rollback-w1-1");
    assert!(!reg.is_active("w1"));
    assert!(reg.is_active("w2"));
    assert!(reg.take("w1").is_none());
}

#[test]
fn rollback_outcomes() {
    assert!(rollback_taken(&Ok(CheckpointOutcome::Created)).is_ok());
    assert_eq!(
        rollback_taken(&Ok(CheckpointOutcome::Skipped { reason: "Repository has no commits".into() })).unwrap_err(),
        "Spotlight cannot start: Repository has no commits"
    );
    assert_eq!(
        rollback_taken(&Err(CheckpointError::InvalidUtf8)).unwrap_err(),
        "Spotlight failed to create rollback checkpoint: Checkpoint git output was not valid UTF-8"
    );
}

#[test]
fn sync_cycle_decisions() {
    assert!(matches!(after_sync_checkpoint(&Ok(CheckpointOutcome::Created)), CycleDecision::Restore));
    match after_sync_checkpoint(&Ok(CheckpointOutcome::Skipped { reason: "x".into() })) {
        CycleDecision::Log(m) => assert_eq!(m, "[spotlight] sync skipped: x"),
        _ => panic!(),
    }
    match after_sync_checkpoint(&Err(CheckpointError::Io("gone".into()))) {
        CycleDecision::Log(m) => assert_eq!(m, "[spotlight] sync checkpoint failed: Checkpoint IO error: gone"),
        _ => panic!(),
    }
    assert!(after_sync_restore(&Ok(())).is_none());
    assert_eq!(
        after_sync_restore(&Err(CheckpointError::Time("t".into()))).unwrap(),
        "[spotlight] restore failed: t"
    );
}

#[test]
fn worker_wakes() {
    assert!(matches!(worker_next(true, Wake::Signal), WorkerAction::Exit));
    assert!(matches!(worker_next(false, Wake::Signal), WorkerAction::Sync));
    assert!(matches!(worker_next(false, Wake::Timeout), WorkerAction::Wait));
    assert!(matches!(worker_next(false, Wake::Disconnected), WorkerAction::Exit));
}

fn path(parts: &[&str]) -> EventPath {
    EventPath {
        components: parts.iter().map(|s| s.to_string()).collect(),
        file_name: parts.last().map(|s| s.to_string()),
    }
}

#[test]
fn ignored_events() {
    assert!(should_ignore_path(&path(&["/", "w", ".git", "index"])));
    assert!(should_ignore_path(&path(&["/", "w", ".context", "notes.md"])));
    assert!(should_ignore_path(&path(&["/", "w", "a.tmp.123"])));
    assert!(!should_ignore_path(&path(&["/", "w", "src", "main.rs"])));
    assert!(!should_ignore_event(&vec![]));
    assert!(should_ignore_event(&vec![path(&["w", ".git", "x"]), path(&["w", "b.tmp.1"])]));
    assert!(!should_ignore_event(&vec![path(&["w", ".git", "x"]), path(&["w", "b.rs"])]));
}

#[test]
fn disable_restores_then_removes_both_refs() {
    let (mut run, step) = start_disable(entry("w1", "/repo"));
    match step {
        DisableStep::Restore(id) => assert_eq!(id, "spotlight-rollback-w1-1"),
        _ => panic!(),
    }
    match run.advance(Ok(())) {
        DisableStep::Delete(id) => assert_eq!(id, "spotlight-rollback-w1-1"),
        _ => panic!(),
    }
    match run.advance(Ok(())) {
        DisableStep::Delete(id) => assert_eq!(id, "spotlight-sync-w1"),
        _ => panic!(),
    }
    assert!(matches!(run.advance(Ok(())), DisableStep::Finish(Ok(()))));
}

#[test]
fn failed_rollback_restore_is_fatal() {
    let (mut run, _) = start_disable(entry("w1", "/repo"));
    match run.advance(Err(CheckpointError::NotFound("Checkpoint not found: x".into()))) {
        DisableStep::Finish(Err(m)) => assert_eq!(m, "Failed to restore rollback checkpoint: Checkpoint not found: x"),
        _ => panic!(),
    }
}

#[test]
fn cleanup_failures_are_joined() {
    let (mut run, _) = start_disable(entry("w1", "/repo"));
    run.advance(Ok(()));
    run.advance(Err(CheckpointError::Time("a".into())));
    match run.advance(Err(CheckpointError::Time("b".into()))) {
        DisableStep::Finish(Err(m)) => assert_eq!(
            m,
            "Rollback checkpoint cleanup failed: a | Spotlight checkpoint cleanup failed: b"
        ),
        _ => panic!(),
    }
}
