//! The decisions of live sync: which sessions exist, when one may start,
//! what a sync cycle does with a checkpoint's outcome, when the worker
//! wakes, which file events matter, and how a session is wound down.
use vstd::prelude::*;
use vstd::string::*;
use crate::checkpoint::{error_text, CheckpointError, CheckpointOutcome};
use crate::meta::{decimal, decimal_text};
use crate::text::{contains_seq, contains_text, same_text};

verus! {

/// One live-sync session: `workspace_id`'s scratch tree mirrored into the
/// repository at `repo_root`.
pub struct SyncEntry {
    pub workspace_id: String,
    pub repo_root: String,
    /// Taken once, when the session starts; restored when it ends.
    pub rollback_checkpoint_id: String,
    /// Written again by every sync cycle.
    pub sync_checkpoint_id: String,
}

/// The sessions that are active.
pub struct SyncRegistry {
    pub entries: Vec<SyncEntry>,
}

pub open spec fn has_workspace(entries: Seq<SyncEntry>, ws: Seq<char>) -> bool {
    exists|i: int| 0 <= i < entries.len() && (#[trigger] entries[i]).workspace_id@ == ws
}

pub open spec fn targets_repo(entries: Seq<SyncEntry>, repo: Seq<char>) -> bool {
    exists|i: int| 0 <= i < entries.len() && (#[trigger] entries[i]).repo_root@ == repo
}

/// No two sessions share a workspace, and no two share a repository.
pub open spec fn registry_wf(entries: Seq<SyncEntry>) -> bool {
    forall|i: int, j: int|
        0 <= i < j < entries.len() ==> (#[trigger] entries[i]).workspace_id@ != (
        #[trigger] entries[j]).workspace_id@ && entries[i].repo_root@ != entries[j].repo_root@
}

/// What `enable` is to do.
pub enum EnablePlan {
    /// The workspace has a session already: nothing to do.
    AlreadyActive,
    /// Starting is refused, for this reason.
    Refused(String),
    /// Take the rollback checkpoint, then start the worker.
    Start { rollback_checkpoint_id: String, sync_checkpoint_id: String },
}

pub open spec fn same_path_message() -> Seq<char> {
    "Spotlight requires a separate worktree path"@
}

pub open spec fn busy_repo_message() -> Seq<char> {
    "Spotlight already active for this repository"@
}

pub open spec fn rollback_id(ws: Seq<char>, stamp: nat) -> Seq<char> {
    "spotlight-rollback-"@ + ws + "-"@ + decimal(stamp)
}

pub open spec fn sync_id(ws: Seq<char>) -> Seq<char> {
    "spotlight-sync-"@ + ws
}

impl SyncRegistry {
    pub open spec fn wf(&self) -> bool {
        registry_wf(self.entries@)
    }

    pub fn new() -> (r: SyncRegistry)
        ensures
            r.wf(),
            r.entries@.len() == 0,
    {
        SyncRegistry { entries: Vec::new() }
    }

    /// The index of `workspace_id`'s session, if it has one.
    pub fn find(&self, workspace_id: &str) -> (r: Option<usize>)
        ensures
            r is None <==> !has_workspace(self.entries@, workspace_id@),
            r matches Some(i) ==> i < self.entries@.len() && self.entries@[i as int].workspace_id@
                == workspace_id@,
    {
        let mut i: usize = 0;
        while i < self.entries.len()
            invariant
                i <= self.entries@.len(),
                forall|k: int| 0 <= k < i ==> (#[trigger] self.entries@[k]).workspace_id@ != workspace_id@,
            decreases self.entries@.len() - i,
        {
            if same_text(self.entries[i].workspace_id.as_str(), workspace_id) {
                return Some(i);
            }
            i = i + 1;
        }
        None
    }

    fn repo_taken(&self, repo_root: &str) -> (r: bool)
        ensures
            r == targets_repo(self.entries@, repo_root@),
    {
        let mut i: usize = 0;
        while i < self.entries.len()
            invariant
                i <= self.entries@.len(),
                forall|k: int| 0 <= k < i ==> (#[trigger] self.entries@[k]).repo_root@ != repo_root@,
            decreases self.entries@.len() - i,
        {
            if same_text(self.entries[i].repo_root.as_str(), repo_root) {
                return true;
            }
            i = i + 1;
        }
        false
    }

    /// Whether `workspace_id` has a session.
    pub fn is_active(&self, workspace_id: &str) -> (r: bool)
        ensures
            r == has_workspace(self.entries@, workspace_id@),
    {
        self.find(workspace_id).is_some()
    }

    /// Decides what `enable` does for `workspace_id`, mirroring
    /// `workspace_path` into `repo_root`, at `stamp` seconds since the Unix
    /// epoch. At most one session targets a repository: a second one is
    /// refused before any checkpoint is taken.
    pub fn plan_enable(&self, workspace_id: &str, workspace_path: &str, repo_root: &str, stamp: u64) -> (r:
        EnablePlan)
        ensures
            workspace_path@ == repo_root@ ==> (r matches EnablePlan::Refused(m) && m@
                == same_path_message()),
            workspace_path@ != repo_root@ && has_workspace(self.entries@, workspace_id@) ==> r is AlreadyActive,
            workspace_path@ != repo_root@ && !has_workspace(self.entries@, workspace_id@)
                && targets_repo(self.entries@, repo_root@) ==> (r matches EnablePlan::Refused(m)
                && m@ == busy_repo_message()),
            workspace_path@ != repo_root@ && !has_workspace(self.entries@, workspace_id@)
                && !targets_repo(self.entries@, repo_root@) ==> (r matches EnablePlan::Start {
                rollback_checkpoint_id,
                sync_checkpoint_id,
            } && rollback_checkpoint_id@ == rollback_id(workspace_id@, stamp as nat)
                && sync_checkpoint_id@ == sync_id(workspace_id@)),
    {
        if same_text(workspace_path, repo_root) {
            return EnablePlan::Refused(String::from_str("Spotlight requires a separate worktree path"));
        }
        if self.is_active(workspace_id) {
            return EnablePlan::AlreadyActive;
        }
        if self.repo_taken(repo_root) {
            return EnablePlan::Refused(String::from_str("Spotlight already active for this repository"));
        }
        let mut rollback = String::from_str("spotlight-rollback-");
        rollback.append(workspace_id);
        rollback.append("-");
        let digits = decimal_text(stamp);
        rollback.append(digits.as_str());
        let mut sync = String::from_str("spotlight-sync-");
        sync.append(workspace_id);
        EnablePlan::Start { rollback_checkpoint_id: rollback, sync_checkpoint_id: sync }
    }

    /// Records a session that has started.
    pub fn register(&mut self, entry: SyncEntry)
        requires
            old(self).wf(),
            !has_workspace(old(self).entries@, entry.workspace_id@),
            !targets_repo(old(self).entries@, entry.repo_root@),
        ensures
            final(self).wf(),
            final(self).entries@ == old(self).entries@.push(entry),
    {
        let ghost before = self.entries@;
        self.entries.push(entry);
        assert forall|i: int, j: int| 0 <= i < j < self.entries@.len() implies (
        #[trigger] self.entries@[i]).workspace_id@ != (#[trigger] self.entries@[j]).workspace_id@
            && self.entries@[i].repo_root@ != self.entries@[j].repo_root@ by {
            if j == before.len() {
                assert(self.entries@[i] == before[i]);
            }
        }
    }

    /// Takes `workspace_id`'s session out of the registry, if it has one.
    pub fn take(&mut self, workspace_id: &str) -> (r: Option<SyncEntry>)
        requires
            old(self).wf(),
        ensures
            final(self).wf(),
            r is None <==> !has_workspace(old(self).entries@, workspace_id@),
            r is None ==> final(self).entries@ == old(self).entries@,
            r matches Some(e) ==> exists|i: int|
                0 <= i < old(self).entries@.len() && old(self).entries@[i] == e
                    && e.workspace_id@ == workspace_id@ && final(self).entries@ == old(
                    self,
                ).entries@.remove(i),
            !has_workspace(final(self).entries@, workspace_id@),
    {
        match self.find(workspace_id) {
            None => None,
            Some(i) => {
                let ghost before = self.entries@;
                let e = self.entries.remove(i);
                assert forall|a: int, b: int| 0 <= a < b < self.entries@.len() implies (
                #[trigger] self.entries@[a]).workspace_id@ != (
                #[trigger] self.entries@[b]).workspace_id@ && self.entries@[a].repo_root@
                    != self.entries@[b].repo_root@ by {
                    let a0 = if a < i { a } else { a + 1 };
                    let b0 = if b < i { b } else { b + 1 };
                    assert(self.entries@[a] == before[a0]);
                    assert(self.entries@[b] == before[b0]);
                }
                assert forall|k: int| 0 <= k < self.entries@.len() implies (
                #[trigger] self.entries@[k]).workspace_id@ != workspace_id@ by {
                    let k0 = if k < i { k } else { k + 1 };
                    assert(self.entries@[k] == before[k0]);
                }
                Some(e)
            },
        }
    }
}

/// The session that `take` hands back for a workspace is the one that
/// `register` recorded for it, whatever sessions of other workspaces came and
/// went in between: `entries` is the registry when `take` runs, `e` the
/// recorded session, still in it, and `taken` what `take` promises to return.
/// So `disable` restores the very rollback checkpoint that `enable` took, and
/// removes the two refs that the session wrote.
pub proof fn lemma_take_returns_registered(entries: Seq<SyncEntry>, e: SyncEntry, taken: SyncEntry)
    requires
        registry_wf(entries),
        exists|i: int| 0 <= i < entries.len() && entries[i] == e,
        exists|j: int|
            0 <= j < entries.len() && entries[j] == taken && taken.workspace_id@
                == e.workspace_id@,
    ensures
        taken == e,
{
    let i = choose|i: int| 0 <= i < entries.len() && entries[i] == e;
    let j = choose|j: int|
        0 <= j < entries.len() && entries[j] == taken && taken.workspace_id@ == e.workspace_id@;
    if i < j {
        assert(entries[i].workspace_id@ != entries[j].workspace_id@);
    } else if j < i {
        assert(entries[j].workspace_id@ != entries[i].workspace_id@);
    }
}

/// What becomes of `enable` once the rollback checkpoint was attempted:
/// only a created checkpoint lets the session start.
pub open spec fn rollback_verdict(r: Result<CheckpointOutcome, CheckpointError>) -> Result<
    (),
    Seq<char>,
> {
    match r {
        Ok(CheckpointOutcome::Created) => Ok(()),
        Ok(CheckpointOutcome::Skipped { reason }) => Err("Spotlight cannot start: "@ + reason@),
        Err(e) => Err("Spotlight failed to create rollback checkpoint: "@ + error_text(e)),
    }
}

pub open spec fn text_result(r: Result<(), String>) -> Result<(), Seq<char>> {
    match r {
        Ok(()) => Ok(()),
        Err(m) => Err(m@),
    }
}

pub fn rollback_taken(r: &Result<CheckpointOutcome, CheckpointError>) -> (v: Result<(), String>)
    ensures
        text_result(v) == rollback_verdict(*r),
{
    match r {
        Ok(CheckpointOutcome::Created) => Ok(()),
        Ok(CheckpointOutcome::Skipped { reason }) => {
            let mut m = String::from_str("Spotlight cannot start: ");
            m.append(reason.as_str());
            Err(m)
        },
        Err(e) => {
            let mut m = String::from_str("Spotlight failed to create rollback checkpoint: ");
            let t = e.message();
            m.append(t.as_str());
            Err(m)
        },
    }
}

/// What a sync cycle does once the scratch tree's checkpoint was attempted.
pub enum CycleDecision {
    /// Restore the checkpoint onto the repository.
    Restore,
    /// Give up on this cycle, and log this.
    Log(String),
}

pub open spec fn cycle_verdict(r: Result<CheckpointOutcome, CheckpointError>) -> Option<Seq<char>> {
    match r {
        Ok(CheckpointOutcome::Created) => None,
        Ok(CheckpointOutcome::Skipped { reason }) => Some("[spotlight] sync skipped: "@ + reason@),
        Err(e) => Some("[spotlight] sync checkpoint failed: "@ + error_text(e)),
    }
}

pub fn after_sync_checkpoint(r: &Result<CheckpointOutcome, CheckpointError>) -> (d: CycleDecision)
    ensures
        match cycle_verdict(*r) {
            None => d is Restore,
            Some(m) => d matches CycleDecision::Log(t) && t@ == m,
        },
{
    match r {
        Ok(CheckpointOutcome::Created) => CycleDecision::Restore,
        Ok(CheckpointOutcome::Skipped { reason }) => {
            let mut m = String::from_str("[spotlight] sync skipped: ");
            m.append(reason.as_str());
            CycleDecision::Log(m)
        },
        Err(e) => {
            let mut m = String::from_str("[spotlight] sync checkpoint failed: ");
            let t = e.message();
            m.append(t.as_str());
            CycleDecision::Log(m)
        },
    }
}

/// The line to log where a sync cycle's restore failed.
pub fn after_sync_restore(r: &Result<(), CheckpointError>) -> (m: Option<String>)
    ensures
        match *r {
            Ok(()) => m is None,
            Err(e) => m matches Some(t) && t@ == "[spotlight] restore failed: "@ + error_text(e),
        },
{
    match r {
        Ok(()) => None,
        Err(e) => {
            let mut m = String::from_str("[spotlight] restore failed: ");
            let t = e.message();
            m.append(t.as_str());
            Some(m)
        },
    }
}

/// What woke the worker.
pub enum Wake {
    /// A file event, or the first cycle, or a stop request.
    Signal,
    /// The debounce window passed with no signal.
    Timeout,
    /// Every sender is gone.
    Disconnected,
}

pub enum WorkerAction {
    Exit,
    Sync,
    Wait,
}

/// What the worker does after waking, once the signals that queued up
/// behind the first were drained: a stop request always wins, and a burst of
/// signals gives one cycle.
pub fn worker_next(stopped: bool, wake: Wake) -> (a: WorkerAction)
    ensures
        stopped ==> a is Exit,
        !stopped ==> match wake {
            Wake::Signal => a is Sync,
            Wake::Timeout => a is Wait,
            Wake::Disconnected => a is Exit,
        },
{
    if stopped {
        return WorkerAction::Exit;
    }
    match wake {
        Wake::Signal => WorkerAction::Sync,
        Wake::Timeout => WorkerAction::Wait,
        Wake::Disconnected => WorkerAction::Exit,
    }
}

/// A path that a file event named, as its components and its file name.
pub struct EventPath {
    pub components: Vec<String>,
    pub file_name: Option<String>,
}

pub open spec fn ignored_path(p: EventPath) -> bool {
    (exists|i: int|
        0 <= i < p.components@.len() && ((#[trigger] p.components@[i])@ == ".context"@
            || p.components@[i]@ == ".git"@)) || (p.file_name matches Some(n) && contains_seq(
        n@,
        ".tmp."@,
    ))
}

/// Whether an event on `p` comes from git's metadata, the internal
/// `.context` directory, or a temporary file, and is to be ignored.
pub fn should_ignore_path(p: &EventPath) -> (r: bool)
    ensures
        r == ignored_path(*p),
{
    let mut i: usize = 0;
    while i < p.components.len()
        invariant
            i <= p.components@.len(),
            forall|k: int|
                0 <= k < i ==> (#[trigger] p.components@[k])@ != ".context"@ && p.components@[k]@
                    != ".git"@,
        decreases p.components@.len() - i,
    {
        let c = p.components[i].as_str();
        if same_text(c, ".context") || same_text(c, ".git") {
            return true;
        }
        i = i + 1;
    }
    match &p.file_name {
        Some(n) => contains_text(n.as_str(), ".tmp."),
        None => false,
    }
}

/// Whether an event is to be ignored: it names at least one path, and only
/// paths that are ignored.
pub fn should_ignore_event(paths: &Vec<EventPath>) -> (r: bool)
    ensures
        r == (paths@.len() > 0 && forall|i: int| 0 <= i < paths@.len() ==> ignored_path(#[trigger] paths@[i])),
{
    if paths.len() == 0 {
        return false;
    }
    let mut i: usize = 0;
    while i < paths.len()
        invariant
            i <= paths@.len(),
            forall|k: int| 0 <= k < i ==> ignored_path(#[trigger] paths@[k]),
        decreases paths@.len() - i,
    {
        if !should_ignore_path(&paths[i]) {
            return false;
        }
        i = i + 1;
    }
    true
}

/// What `disable` asks next.
pub enum DisableStep {
    Restore(String),
    Delete(String),
    Finish(Result<(), String>),
}

pub enum DisableStage {
    Restoring,
    DeletingRollback,
    DeletingSync { rollback_failure: Option<String> },
    Over,
}

/// A `disable` under way, for the session in `entry`.
pub struct DisableRun {
    pub entry: SyncEntry,
    pub stage: DisableStage,
}

pub open spec fn restore_failed_text(e: CheckpointError) -> Seq<char> {
    "Failed to restore rollback checkpoint: "@ + error_text(e)
}

pub open spec fn rollback_cleanup_text(e: CheckpointError) -> Seq<char> {
    "Rollback checkpoint cleanup failed: "@ + error_text(e)
}

pub open spec fn sync_cleanup_text(e: CheckpointError) -> Seq<char> {
    "Spotlight checkpoint cleanup failed: "@ + error_text(e)
}

/// What the two removals give together: success where both succeeded, else
/// the failures joined by `" | "`. A failure here does not undo the restore.
pub open spec fn cleanup_verdict(rollback_failure: Option<Seq<char>>, r: Result<(), CheckpointError>) -> Result<
    (),
    Seq<char>,
> {
    match (rollback_failure, r) {
        (None, Ok(())) => Ok(()),
        (Some(a), Ok(())) => Err(a),
        (None, Err(e)) => Err(sync_cleanup_text(e)),
        (Some(a), Err(e)) => Err(a + " | "@ + sync_cleanup_text(e)),
    }
}

pub open spec fn opt_text(o: Option<String>) -> Option<Seq<char>> {
    match o {
        Some(s) => Some(s@),
        None => None,
    }
}

/// Starts winding down the session in `entry`, whose worker has stopped:
/// first the repository gets its rollback checkpoint back.
pub fn start_disable(entry: SyncEntry) -> (r: (DisableRun, DisableStep))
    ensures
        r.0.entry == entry,
        r.0.stage is Restoring,
        r.1 matches DisableStep::Restore(id) && id@ == entry.rollback_checkpoint_id@,
{
    let id = entry.rollback_checkpoint_id.clone();
    (DisableRun { entry, stage: DisableStage::Restoring }, DisableStep::Restore(id))
}

impl DisableRun {
    /// Takes the result of the last step and gives the next one. A failed
    /// restore ends the run with its error, and leaves both refs in place;
    /// after a restore both refs are removed, whatever the first removal gave.
    pub fn advance(&mut self, result: Result<(), CheckpointError>) -> (s: DisableStep)
        ensures
            final(self).entry == old(self).entry,
            match (old(self).stage, result) {
                (DisableStage::Restoring, Err(e)) => final(self).stage is Over && (s matches DisableStep::Finish(
                    Err(m),
                ) && m@ == restore_failed_text(e)),
                (DisableStage::Restoring, Ok(())) => final(self).stage is DeletingRollback && (
                s matches DisableStep::Delete(id) && id@ == old(self).entry.rollback_checkpoint_id@),
                (DisableStage::DeletingRollback, r) => (final(self).stage matches DisableStage::DeletingSync {
                    rollback_failure,
                } && opt_text(rollback_failure) == match r {
                    Ok(()) => None,
                    Err(e) => Some(rollback_cleanup_text(e)),
                }) && (s matches DisableStep::Delete(id) && id@
                    == old(self).entry.sync_checkpoint_id@),
                (DisableStage::DeletingSync { rollback_failure }, r) => final(self).stage is Over
                    && (s matches DisableStep::Finish(v) && text_result(v) == cleanup_verdict(
                    opt_text(rollback_failure),
                    r,
                )),
                (DisableStage::Over, _) => final(self).stage is Over && (s matches DisableStep::Finish(
                    Ok(()),
                )),
            },
    {
        let mut stage = DisableStage::Over;
        std::mem::swap(&mut self.stage, &mut stage);
        match (stage, result) {
            (DisableStage::Restoring, Err(e)) => {
                let mut m = String::from_str("Failed to restore rollback checkpoint: ");
                let t = e.message();
                m.append(t.as_str());
                DisableStep::Finish(Err(m))
            },
            (DisableStage::Restoring, Ok(())) => {
                self.stage = DisableStage::DeletingRollback;
                DisableStep::Delete(self.entry.rollback_checkpoint_id.clone())
            },
            (DisableStage::DeletingRollback, r) => {
                let failure = match r {
                    Ok(()) => None,
                    Err(e) => {
                        let mut m = String::from_str("Rollback checkpoint cleanup failed: ");
                        let t = e.message();
                        m.append(t.as_str());
                        Some(m)
                    },
                };
                self.stage = DisableStage::DeletingSync { rollback_failure: failure };
                DisableStep::Delete(self.entry.sync_checkpoint_id.clone())
            },
            (DisableStage::DeletingSync { rollback_failure }, r) => {
                let second = match r {
                    Ok(()) => None,
                    Err(e) => {
                        let mut m = String::from_str("Spotlight checkpoint cleanup failed: ");
                        let t = e.message();
                        m.append(t.as_str());
                        Some(m)
                    },
                };
                match (rollback_failure, second) {
                    (None, None) => DisableStep::Finish(Ok(())),
                    (Some(a), None) => DisableStep::Finish(Err(a)),
                    (None, Some(b)) => DisableStep::Finish(Err(b)),
                    (Some(a), Some(b)) => {
                        let mut m = a;
                        m.append(" | ");
                        m.append(b.as_str());
                        DisableStep::Finish(Err(m))
                    },
                }
            },
            (DisableStage::Over, _) => DisableStep::Finish(Ok(())),
        }
    }
}

} // verus!
