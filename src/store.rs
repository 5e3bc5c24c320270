//! The checkpoint store: `create`, `restore` and `delete` as machines that
//! ask for one outside step at a time (a git command, a look at the git
//! directory, a scratch index, the clock) and decide on its answer.
use vstd::prelude::*;
use vstd::string::*;
use crate::checkpoint::{CheckpointError, CheckpointOutcome, invalid_id_message, validate_checkpoint_id, valid_checkpoint_id};
use crate::meta::{build_commit_message, commit_message, extract_meta, format_timestamp, meta_value, missing_meta_message, timestamp_text};
use crate::plumbing::{GitCall, GitCommand, join_path, join_path_text, pairs_view, plain_call, strings_view};
use crate::text::same_text;

verus! {

/// The answer to a `Step`.
pub enum Reply {
    /// A git command's trimmed output, or why it failed.
    Output(Result<String, CheckpointError>),
    /// Whether `MERGE_HEAD`, `rebase-merge` or `rebase-apply` exists in the
    /// git directory.
    MergeState(bool),
    /// The path of an index file in a fresh private directory.
    ScratchIndex(Result<String, CheckpointError>),
    /// Seconds since the Unix epoch.
    Clock(Result<u64, CheckpointError>),
}

/// What an operation asks of its caller next.
pub enum Step<T> {
    Git(GitCommand),
    /// Look for a merge or rebase under way in this git directory.
    CheckMergeState(String),
    /// Make a private directory that lives until the operation is over.
    MakeScratchIndex,
    ReadClock,
    Done(Result<T, CheckpointError>),
}

pub enum CreateStage {
    WorkTree,
    GitDir,
    MergeState,
    Head,
    IndexTree { head: String },
    Scratch { head: String, index_tree: String },
    Seed { head: String, index_tree: String, index_file: String },
    StageAll { head: String, index_tree: String, index_file: String },
    WorktreeTree { head: String, index_tree: String, index_file: String },
    Clock { head: String, index_tree: String, worktree_tree: String },
    Commit,
    UpdateRef,
    Over,
}

/// A `create` under way.
pub struct CreateRun {
    pub repo_path: String,
    pub checkpoint_id: String,
    pub stage: CreateStage,
}

pub enum RestoreStage {
    WorkTree,
    Resolve,
    ReadBody,
    Reset { index_tree: String, worktree_tree: String },
    Overlay { index_tree: String },
    Clean { index_tree: String },
    IndexReset,
    Over,
}

/// A `restore` under way.
pub struct RestoreRun {
    pub repo_path: String,
    pub checkpoint_id: String,
    pub stage: RestoreStage,
}

pub enum DeleteStage {
    WorkTree,
    Remove,
    Over,
}

/// A `delete` under way.
pub struct DeleteRun {
    pub repo_path: String,
    pub checkpoint_id: String,
    pub stage: DeleteStage,
}

// The values that a checkpoint depends on.
pub open spec fn zero_oid() -> Seq<char> {
    "0000000000000000000000000000000000000000"@
}

pub open spec fn ref_name(id: Seq<char>) -> Seq<char> {
    "refs/conductor-checkpoints/"@ + id
}

pub open spec fn merge_message() -> Seq<char> {
    "Merge or rebase in progress"@
}

pub open spec fn no_commits_message() -> Seq<char> {
    "Repository has no commits"@
}

pub open spec fn not_a_worktree_message() -> Seq<char> {
    "Checkpoint requires a git worktree"@
}

pub open spec fn unborn_message() -> Seq<char> {
    "Checkpoint saved with unborn HEAD and cannot be restored"@
}

pub open spec fn not_found_message(id: Seq<char>) -> Seq<char> {
    "Checkpoint not found: "@ + id
}

pub open spec fn unexpected_message() -> Seq<char> {
    "Unexpected reply for the current checkpoint step"@
}

// The commands.
pub open spec fn is_inside_args() -> Seq<Seq<char>> {
    seq!["rev-parse"@, "--is-inside-work-tree"@]
}

pub open spec fn git_dir_args() -> Seq<Seq<char>> {
    seq!["rev-parse"@, "--git-dir"@]
}

pub open spec fn verify_args(name: Seq<char>) -> Seq<Seq<char>> {
    seq!["rev-parse"@, "-q"@, "--verify"@, name]
}

pub open spec fn write_tree_args() -> Seq<Seq<char>> {
    seq!["write-tree"@]
}

pub open spec fn read_tree_args(tree: Seq<char>) -> Seq<Seq<char>> {
    seq!["read-tree"@, tree]
}

pub open spec fn add_all_args() -> Seq<Seq<char>> {
    seq!["add"@, "-A"@, "--"@, "."@]
}

pub open spec fn commit_tree_args(tree: Seq<char>) -> Seq<Seq<char>> {
    seq!["commit-tree"@, tree]
}

pub open spec fn update_ref_args(name: Seq<char>, oid: Seq<char>) -> Seq<Seq<char>> {
    seq!["update-ref"@, name, oid]
}

pub open spec fn cat_commit_args(oid: Seq<char>) -> Seq<Seq<char>> {
    seq!["cat-file"@, "commit"@, oid]
}

pub open spec fn reset_hard_args(oid: Seq<char>) -> Seq<Seq<char>> {
    seq!["reset"@, "--hard"@, oid]
}

pub open spec fn overlay_args(tree: Seq<char>) -> Seq<Seq<char>> {
    seq!["read-tree"@, "--reset"@, "-u"@, tree]
}

pub open spec fn clean_args() -> Seq<Seq<char>> {
    seq!["clean"@, "-fd"@]
}

pub open spec fn reset_index_args(tree: Seq<char>) -> Seq<Seq<char>> {
    seq!["read-tree"@, "--reset"@, tree]
}

pub open spec fn delete_ref_args(name: Seq<char>) -> Seq<Seq<char>> {
    seq!["update-ref"@, "-d"@, name]
}

/// The override that points git at a scratch index file.
pub open spec fn index_env(index_file: Seq<char>) -> Seq<(Seq<char>, Seq<char>)> {
    seq![("GIT_INDEX_FILE"@, index_file)]
}

/// The fixed identity, and the date, of a checkpoint commit.
pub open spec fn identity_env(date: Seq<char>) -> Seq<(Seq<char>, Seq<char>)> {
    seq![
        ("GIT_AUTHOR_NAME"@, "Checkpointer"@),
        ("GIT_AUTHOR_EMAIL"@, "checkpointer@noreply"@),
        ("GIT_AUTHOR_DATE"@, date),
        ("GIT_COMMITTER_NAME"@, "Checkpointer"@),
        ("GIT_COMMITTER_EMAIL"@, "checkpointer@noreply"@),
        ("GIT_COMMITTER_DATE"@, date),
    ]
}

pub open spec fn asks_git<T>(s: Step<T>, c: GitCall) -> bool {
    s matches Step::Git(g) && g@ == c
}

pub open spec fn ends_with_error<T>(s: Step<T>, e: CheckpointError) -> bool {
    s matches Step::Done(Err(f)) && f == e
}

pub open spec fn ends_skipped(s: Step<CheckpointOutcome>, reason: Seq<char>) -> bool {
    s matches Step::Done(Ok(CheckpointOutcome::Skipped { reason: r })) && r@ == reason
}

pub open spec fn ends_not_a_worktree<T>(s: Step<T>) -> bool {
    s matches Step::Done(Err(CheckpointError::NotARepository(m))) && m@
        == not_a_worktree_message()
}

pub open spec fn ends_unexpected<T>(s: Step<T>) -> bool {
    s matches Step::Done(Err(CheckpointError::InvalidState(m))) && m@ == unexpected_message()
}

/// Whether a step asks git to write or remove a ref.
pub open spec fn writes_ref<T>(s: Step<T>) -> bool {
    s matches Step::Git(g) && g@.args.len() > 0 && g@.args[0] == "update-ref"@
}

pub open spec fn create_expects_output(st: CreateStage) -> bool {
    st is WorkTree || st is GitDir || st is Head || st is IndexTree || st is Seed || st is StageAll
        || st is WorktreeTree || st is Commit || st is UpdateRef
}

/// One move of `create`: from `a`, on `reply`, to `b`, asking `s`.
pub open spec fn create_transition(
    a: CreateRun,
    reply: Reply,
    b: CreateRun,
    s: Step<CheckpointOutcome>,
) -> bool {
    let id = a.checkpoint_id@;
    &&& b.repo_path == a.repo_path
    &&& b.checkpoint_id == a.checkpoint_id
    &&& match (a.stage, reply) {
        (CreateStage::WorkTree, Reply::Output(Ok(o))) => if o@ == "true"@ {
            b.stage is GitDir && asks_git(s, plain_call(git_dir_args()))
        } else {
            b.stage is Over && ends_not_a_worktree(s)
        },
        (CreateStage::GitDir, Reply::Output(Ok(o))) => b.stage is MergeState && (s matches Step::<
            CheckpointOutcome,
        >::CheckMergeState(d) && d@ == join_path(a.repo_path@, o@)),
        (CreateStage::MergeState, Reply::MergeState(busy)) => if busy {
            b.stage is Over && ends_skipped(s, merge_message())
        } else {
            b.stage is Head && asks_git(s, plain_call(verify_args("HEAD"@)))
        },
        (CreateStage::Head, Reply::Output(Ok(o))) => if o@ == zero_oid() {
            b.stage is Over && ends_skipped(s, no_commits_message())
        } else {
            b.stage matches CreateStage::IndexTree { head } && head@ == o@ && asks_git(
                s,
                plain_call(write_tree_args()),
            )
        },
        (CreateStage::Head, Reply::Output(Err(e))) => if e is Git {
            b.stage is Over && ends_skipped(s, no_commits_message())
        } else {
            b.stage is Over && ends_with_error(s, e)
        },
        (CreateStage::IndexTree { head }, Reply::Output(Ok(o))) => b.stage matches CreateStage::Scratch {
            head: h,
            index_tree: t,
        } && h@ == head@ && t@ == o@ && s is MakeScratchIndex,
        (CreateStage::Scratch { head, index_tree }, Reply::ScratchIndex(Ok(p))) => b.stage matches CreateStage::Seed {
            head: h,
            index_tree: t,
            index_file: f,
        } && h@ == head@ && t@ == index_tree@ && f@ == p@ && asks_git(
            s,
            GitCall { args: read_tree_args(index_tree@), envs: index_env(p@), stdin: None },
        ),
        (CreateStage::Seed { head, index_tree, index_file }, Reply::Output(Ok(_))) => b.stage matches CreateStage::StageAll {
            head: h,
            index_tree: t,
            index_file: f,
        } && h@ == head@ && t@ == index_tree@ && f@ == index_file@ && asks_git(
            s,
            GitCall { args: add_all_args(), envs: index_env(index_file@), stdin: None },
        ),
        (CreateStage::StageAll { head, index_tree, index_file }, Reply::Output(Ok(_))) => b.stage matches CreateStage::WorktreeTree {
            head: h,
            index_tree: t,
            index_file: f,
        } && h@ == head@ && t@ == index_tree@ && f@ == index_file@ && asks_git(
            s,
            GitCall { args: write_tree_args(), envs: index_env(index_file@), stdin: None },
        ),
        (CreateStage::WorktreeTree { head, index_tree, index_file }, Reply::Output(Ok(o))) => b.stage matches CreateStage::Clock {
            head: h,
            index_tree: t,
            worktree_tree: w,
        } && h@ == head@ && t@ == index_tree@ && w@ == o@ && s is ReadClock,
        (CreateStage::Clock { head, index_tree, worktree_tree }, Reply::Clock(Ok(secs))) => b.stage is Commit
            && asks_git(
            s,
            GitCall {
                args: commit_tree_args(worktree_tree@),
                envs: identity_env(timestamp_text(secs as nat)),
                stdin: Some(
                    commit_message(
                        id,
                        head@,
                        index_tree@,
                        worktree_tree@,
                        timestamp_text(secs as nat),
                    ),
                ),
            },
        ),
        (CreateStage::Commit, Reply::Output(Ok(o))) => b.stage is UpdateRef && asks_git(
            s,
            plain_call(update_ref_args(ref_name(id), o@)),
        ),
        (CreateStage::UpdateRef, Reply::Output(Ok(_))) => b.stage is Over && (s matches Step::Done(
            Ok(CheckpointOutcome::Created),
        )),
        (CreateStage::Scratch { .. }, Reply::ScratchIndex(Err(e))) => b.stage is Over
            && ends_with_error(s, e),
        (CreateStage::Clock { .. }, Reply::Clock(Err(e))) => b.stage is Over && ends_with_error(
            s,
            e,
        ),
        (st, Reply::Output(Err(e))) => b.stage is Over && if create_expects_output(st) {
            ends_with_error(s, e)
        } else {
            ends_unexpected(s)
        },
        _ => b.stage is Over && ends_unexpected(s),
    }
}

pub open spec fn restore_expects_output(st: RestoreStage) -> bool {
    !(st is Over)
}

pub open spec fn ends_missing<T>(s: Step<T>, key: Seq<char>) -> bool {
    s matches Step::Done(Err(CheckpointError::MissingMetadata(m))) && m@
        == missing_meta_message(key)
}

/// What `restore` does with the message of the checkpoint's commit: the
/// three values are looked up in this order, and a checkpoint of an unborn
/// repository is refused.
pub open spec fn restore_body_step(body: Seq<char>, b: RestoreStage, s: Step<()>) -> bool {
    match (
        meta_value(body, "head"@),
        meta_value(body, "index-tree"@),
        meta_value(body, "worktree-tree"@),
    ) {
        (None, _, _) => b is Over && ends_missing(s, "head"@),
        (Some(_), None, _) => b is Over && ends_missing(s, "index-tree"@),
        (Some(_), Some(_), None) => b is Over && ends_missing(s, "worktree-tree"@),
        (Some(h), Some(t), Some(w)) => if h == zero_oid() {
            b is Over && (s matches Step::Done(Err(CheckpointError::InvalidState(m))) && m@
                == unborn_message())
        } else {
            (b matches RestoreStage::Reset { index_tree, worktree_tree } && index_tree@ == t
                && worktree_tree@ == w) && asks_git(s, plain_call(reset_hard_args(h)))
        },
    }
}

/// One move of `restore`: from `a`, on `reply`, to `b`, asking `s`.
#[verifier::opaque]
pub open spec fn restore_transition(a: RestoreRun, reply: Reply, b: RestoreRun, s: Step<()>) -> bool {
    let id = a.checkpoint_id@;
    &&& b.repo_path == a.repo_path
    &&& b.checkpoint_id == a.checkpoint_id
    &&& match (a.stage, reply) {
        (RestoreStage::WorkTree, Reply::Output(Ok(o))) => if o@ == "true"@ {
            b.stage is Resolve && asks_git(s, plain_call(verify_args(ref_name(id))))
        } else {
            b.stage is Over && ends_not_a_worktree(s)
        },
        (RestoreStage::Resolve, Reply::Output(Ok(o))) => b.stage is ReadBody && asks_git(
            s,
            plain_call(cat_commit_args(o@)),
        ),
        (RestoreStage::Resolve, Reply::Output(Err(e))) => b.stage is Over && if e is Git {
            s matches Step::Done(Err(CheckpointError::NotFound(m))) && m@ == not_found_message(id)
        } else {
            ends_with_error(s, e)
        },
        (RestoreStage::ReadBody, Reply::Output(Ok(o))) => restore_body_step(o@, b.stage, s),
        (RestoreStage::Reset { index_tree, worktree_tree }, Reply::Output(Ok(_))) => (b.stage matches RestoreStage::Overlay {
            index_tree: t,
        } && t@ == index_tree@) && asks_git(s, plain_call(overlay_args(worktree_tree@))),
        (RestoreStage::Overlay { index_tree }, Reply::Output(Ok(_))) => (b.stage matches RestoreStage::Clean {
            index_tree: t,
        } && t@ == index_tree@) && asks_git(s, plain_call(clean_args())),
        (RestoreStage::Clean { index_tree }, Reply::Output(Ok(_))) => b.stage is IndexReset
            && asks_git(s, plain_call(reset_index_args(index_tree@))),
        (RestoreStage::IndexReset, Reply::Output(Ok(_))) => b.stage is Over && (s matches Step::Done(
            Ok(()),
        )),
        (st, Reply::Output(Err(e))) => b.stage is Over && if restore_expects_output(st) {
            ends_with_error(s, e)
        } else {
            ends_unexpected(s)
        },
        _ => b.stage is Over && ends_unexpected(s),
    }
}

/// One move of `delete`: from `a`, on `reply`, to `b`, asking `s`.
pub open spec fn delete_transition(a: DeleteRun, reply: Reply, b: DeleteRun, s: Step<()>) -> bool {
    let id = a.checkpoint_id@;
    &&& b.repo_path == a.repo_path
    &&& b.checkpoint_id == a.checkpoint_id
    &&& match (a.stage, reply) {
        (DeleteStage::WorkTree, Reply::Output(Ok(o))) => if o@ == "true"@ {
            b.stage is Remove && asks_git(s, plain_call(delete_ref_args(ref_name(id))))
        } else {
            b.stage is Over && ends_not_a_worktree(s)
        },
        (DeleteStage::Remove, Reply::Output(Ok(_))) => b.stage is Over && (s matches Step::Done(
            Ok(()),
        )),
        (DeleteStage::WorkTree, Reply::Output(Err(e))) => b.stage is Over && ends_with_error(s, e),
        (DeleteStage::Remove, Reply::Output(Err(e))) => b.stage is Over && ends_with_error(s, e),
        _ => b.stage is Over && ends_unexpected(s),
    }
}

/// How an operation starts: an invalid id ends it at once, before any
/// command runs; a valid one first asks whether the path is in a working
/// tree.
pub open spec fn starts_with_check<T>(id: Seq<char>, over: bool, s: Step<T>) -> bool {
    if valid_checkpoint_id(id) {
        !over && asks_git(s, plain_call(is_inside_args()))
    } else {
        over && (s matches Step::Done(Err(CheckpointError::InvalidCheckpointId(m))) && m@
            == invalid_id_message(id))
    }
}

pub open spec fn create_started(
    repo_path: Seq<char>,
    id: Seq<char>,
    r: CreateRun,
    s: Step<CheckpointOutcome>,
) -> bool {
    &&& r.repo_path@ == repo_path
    &&& r.checkpoint_id@ == id
    &&& starts_with_check(id, r.stage is Over, s)
    &&& !(r.stage is Over) ==> r.stage is WorkTree
}

pub open spec fn restore_started(repo_path: Seq<char>, id: Seq<char>, r: RestoreRun, s: Step<()>) -> bool {
    &&& r.repo_path@ == repo_path
    &&& r.checkpoint_id@ == id
    &&& starts_with_check(id, r.stage is Over, s)
    &&& !(r.stage is Over) ==> r.stage is WorkTree
}

pub open spec fn delete_started(repo_path: Seq<char>, id: Seq<char>, r: DeleteRun, s: Step<()>) -> bool {
    &&& r.repo_path@ == repo_path
    &&& r.checkpoint_id@ == id
    &&& starts_with_check(id, r.stage is Over, s)
    &&& !(r.stage is Over) ==> r.stage is WorkTree
}

fn no_args() -> (v: Vec<String>)
    ensures
        strings_view(v@) == Seq::<Seq<char>>::empty(),
{
    let v: Vec<String> = Vec::new();
    assert(strings_view(v@) =~= Seq::<Seq<char>>::empty());
    v
}

fn no_envs() -> (v: Vec<(String, String)>)
    ensures
        pairs_view(v@) == Seq::<(Seq<char>, Seq<char>)>::empty(),
{
    let v: Vec<(String, String)> = Vec::new();
    assert(pairs_view(v@) =~= Seq::<(Seq<char>, Seq<char>)>::empty());
    v
}

fn push_arg(v: &mut Vec<String>, a: &str)
    ensures
        strings_view(final(v)@) == strings_view(old(v)@).push(a@),
{
    let ghost before = v@;
    v.push(a.to_owned());
    assert(strings_view(v@) =~= strings_view(before).push(a@));
}

fn push_env(v: &mut Vec<(String, String)>, k: &str, val: &str)
    ensures
        pairs_view(final(v)@) == pairs_view(old(v)@).push((k@, val@)),
{
    let ghost before = v@;
    v.push((k.to_owned(), val.to_owned()));
    assert(pairs_view(v@) =~= pairs_view(before).push((k@, val@)));
}

fn git_command(args: Vec<String>, envs: Vec<(String, String)>, stdin: Option<String>) -> (c:
    GitCommand)
    ensures
        c@.args == strings_view(args@),
        c@.envs == pairs_view(envs@),
        c@.stdin == (match stdin {
            Some(t) => Some(t@),
            None => None::<Seq<char>>,
        }),
{
    GitCommand { args, envs, stdin }
}

fn is_inside_cmd() -> (c: GitCommand)
    ensures
        c@ == plain_call(is_inside_args()),
{
    let mut a = no_args();
    push_arg(&mut a, "rev-parse");
    push_arg(&mut a, "--is-inside-work-tree");
    let c = git_command(a, no_envs(), None);
    assert(c@.args =~= is_inside_args());
    assert(c@.envs =~= seq![]);
    c
}

fn git_dir_cmd() -> (c: GitCommand)
    ensures
        c@ == plain_call(git_dir_args()),
{
    let mut a = no_args();
    push_arg(&mut a, "rev-parse");
    push_arg(&mut a, "--git-dir");
    let c = git_command(a, no_envs(), None);
    assert(c@.args =~= git_dir_args());
    assert(c@.envs =~= seq![]);
    c
}

fn verify_cmd(name: &str) -> (c: GitCommand)
    ensures
        c@ == plain_call(verify_args(name@)),
{
    let mut a = no_args();
    push_arg(&mut a, "rev-parse");
    push_arg(&mut a, "-q");
    push_arg(&mut a, "--verify");
    push_arg(&mut a, name);
    let c = git_command(a, no_envs(), None);
    assert(c@.args =~= verify_args(name@));
    assert(c@.envs =~= seq![]);
    c
}

/// `write-tree`, on the scratch index where one is given.
fn write_tree_cmd(index_file: Option<&str>) -> (c: GitCommand)
    ensures
        c@.args == write_tree_args(),
        c@.stdin is None,
        index_file matches Some(f) ==> c@.envs == index_env(f@),
        index_file is None ==> c@.envs == Seq::<(Seq<char>, Seq<char>)>::empty(),
{
    let mut a = no_args();
    push_arg(&mut a, "write-tree");
    let mut envs = no_envs();
    match index_file {
        Some(f) => {
            push_env(&mut envs, "GIT_INDEX_FILE", f);
            assert(pairs_view(envs@) =~= index_env(f@));
        },
        None => {},
    }
    let c = git_command(a, envs, None);
    assert(c@.args =~= write_tree_args());
    c
}

fn read_tree_cmd(tree: &str, index_file: &str) -> (c: GitCommand)
    ensures
        c@ == (GitCall { args: read_tree_args(tree@), envs: index_env(index_file@), stdin: None }),
{
    let mut a = no_args();
    push_arg(&mut a, "read-tree");
    push_arg(&mut a, tree);
    let mut envs = no_envs();
    push_env(&mut envs, "GIT_INDEX_FILE", index_file);
    let c = git_command(a, envs, None);
    assert(c@.args =~= read_tree_args(tree@));
    assert(c@.envs =~= index_env(index_file@));
    c
}

fn add_all_cmd(index_file: &str) -> (c: GitCommand)
    ensures
        c@ == (GitCall { args: add_all_args(), envs: index_env(index_file@), stdin: None }),
{
    let mut a = no_args();
    push_arg(&mut a, "add");
    push_arg(&mut a, "-A");
    push_arg(&mut a, "--");
    push_arg(&mut a, ".");
    let mut envs = no_envs();
    push_env(&mut envs, "GIT_INDEX_FILE", index_file);
    let c = git_command(a, envs, None);
    assert(c@.args =~= add_all_args());
    assert(c@.envs =~= index_env(index_file@));
    c
}

fn commit_tree_cmd(tree: &str, date: &str, message: String) -> (c: GitCommand)
    ensures
        c@ == (GitCall {
            args: commit_tree_args(tree@),
            envs: identity_env(date@),
            stdin: Some(message@),
        }),
{
    let mut a = no_args();
    push_arg(&mut a, "commit-tree");
    push_arg(&mut a, tree);
    let mut envs = no_envs();
    push_env(&mut envs, "GIT_AUTHOR_NAME", "Checkpointer");
    push_env(&mut envs, "GIT_AUTHOR_EMAIL", "checkpointer@noreply");
    push_env(&mut envs, "GIT_AUTHOR_DATE", date);
    push_env(&mut envs, "GIT_COMMITTER_NAME", "Checkpointer");
    push_env(&mut envs, "GIT_COMMITTER_EMAIL", "checkpointer@noreply");
    push_env(&mut envs, "GIT_COMMITTER_DATE", date);
    let c = git_command(a, envs, Some(message));
    assert(c@.args =~= commit_tree_args(tree@));
    assert(c@.envs =~= identity_env(date@));
    c
}

/// A command of three arguments, with no override and no input.
fn plain3_cmd(x: &str, y: &str, z: &str) -> (c: GitCommand)
    ensures
        c@ == plain_call(seq![x@, y@, z@]),
{
    let mut a = no_args();
    push_arg(&mut a, x);
    push_arg(&mut a, y);
    push_arg(&mut a, z);
    let c = git_command(a, no_envs(), None);
    assert(c@.args =~= seq![x@, y@, z@]);
    assert(c@.envs =~= seq![]);
    c
}

/// A command of two arguments, with no override and no input.
fn plain2_cmd(x: &str, y: &str) -> (c: GitCommand)
    ensures
        c@ == plain_call(seq![x@, y@]),
{
    let mut a = no_args();
    push_arg(&mut a, x);
    push_arg(&mut a, y);
    let c = git_command(a, no_envs(), None);
    assert(c@.args =~= seq![x@, y@]);
    assert(c@.envs =~= seq![]);
    c
}

/// A command of four arguments, with no override and no input.
fn plain4_cmd(w: &str, x: &str, y: &str, z: &str) -> (c: GitCommand)
    ensures
        c@ == plain_call(seq![w@, x@, y@, z@]),
{
    let mut a = no_args();
    push_arg(&mut a, w);
    push_arg(&mut a, x);
    push_arg(&mut a, y);
    push_arg(&mut a, z);
    let c = git_command(a, no_envs(), None);
    assert(c@.args =~= seq![w@, x@, y@, z@]);
    assert(c@.envs =~= seq![]);
    c
}

fn ref_name_text(id: &str) -> (r: String)
    ensures
        r@ == ref_name(id@),
{
    let mut r = String::from_str("refs/conductor-checkpoints/");
    r.append(id);
    r
}

fn unexpected<T>() -> (s: Step<T>)
    ensures
        ends_unexpected(s),
{
    Step::Done(Err(CheckpointError::InvalidState(String::from_str(
        "Unexpected reply for the current checkpoint step",
    ))))
}

fn not_a_worktree<T>() -> (s: Step<T>)
    ensures
        ends_not_a_worktree(s),
{
    Step::Done(Err(CheckpointError::NotARepository(String::from_str(
        "Checkpoint requires a git worktree",
    ))))
}

/// Starts a `create` of checkpoint `checkpoint_id` in the working tree at
/// `repo_path`. An invalid id ends it at once, before any command runs.
pub fn create_checkpoint(repo_path: &str, checkpoint_id: &str) -> (r: (CreateRun, Step<CheckpointOutcome>))
    ensures
        create_started(repo_path@, checkpoint_id@, r.0, r.1),
{
    let repo = repo_path.to_owned();
    let id = checkpoint_id.to_owned();
    match validate_checkpoint_id(checkpoint_id) {
        Err(e) => (CreateRun { repo_path: repo, checkpoint_id: id, stage: CreateStage::Over }, Step::Done(Err(e))),
        Ok(()) => (CreateRun { repo_path: repo, checkpoint_id: id, stage: CreateStage::WorkTree }, Step::Git(is_inside_cmd())),
    }
}

impl CreateRun {
    /// Takes the answer to the last step and gives the next one.
    pub fn advance(&mut self, reply: Reply) -> (s: Step<CheckpointOutcome>)
        ensures
            create_transition(*old(self), reply, *final(self), s),
    {
        let mut stage = CreateStage::Over;
        std::mem::swap(&mut self.stage, &mut stage);
        proof {
            reveal_strlit("true");
        }
        match (stage, reply) {
            (CreateStage::WorkTree, Reply::Output(Ok(o))) => {
                if same_text(o.as_str(), "true") {
                    self.stage = CreateStage::GitDir;
                    Step::Git(git_dir_cmd())
                } else {
                    not_a_worktree()
                }
            },
            (CreateStage::GitDir, Reply::Output(Ok(o))) => {
                self.stage = CreateStage::MergeState;
                Step::CheckMergeState(join_path_text(self.repo_path.as_str(), o.as_str()))
            },
            (CreateStage::MergeState, Reply::MergeState(busy)) => {
                if busy {
                    Step::Done(Ok(CheckpointOutcome::Skipped {
                        reason: String::from_str("Merge or rebase in progress"),
                    }))
                } else {
                    self.stage = CreateStage::Head;
                    Step::Git(verify_cmd("HEAD"))
                }
            },
            (CreateStage::Head, Reply::Output(Ok(o))) => {
                if same_text(o.as_str(), "0000000000000000000000000000000000000000") {
                    Step::Done(Ok(CheckpointOutcome::Skipped {
                        reason: String::from_str("Repository has no commits"),
                    }))
                } else {
                    self.stage = CreateStage::IndexTree { head: o };
                    let c = write_tree_cmd(None);
                    assert(c@.envs =~= seq![]);
                    Step::Git(c)
                }
            },
            (CreateStage::Head, Reply::Output(Err(e))) => {
                match e {
                    CheckpointError::Git { .. } => Step::Done(Ok(CheckpointOutcome::Skipped {
                        reason: String::from_str("Repository has no commits"),
                    })),
                    _ => Step::Done(Err(e)),
                }
            },
            (CreateStage::IndexTree { head }, Reply::Output(Ok(o))) => {
                self.stage = CreateStage::Scratch { head, index_tree: o };
                Step::MakeScratchIndex
            },
            (CreateStage::Scratch { head, index_tree }, Reply::ScratchIndex(Ok(p))) => {
                let c = read_tree_cmd(index_tree.as_str(), p.as_str());
                self.stage = CreateStage::Seed { head, index_tree, index_file: p };
                Step::Git(c)
            },
            (CreateStage::Seed { head, index_tree, index_file }, Reply::Output(Ok(_))) => {
                let c = add_all_cmd(index_file.as_str());
                self.stage = CreateStage::StageAll { head, index_tree, index_file };
                Step::Git(c)
            },
            (CreateStage::StageAll { head, index_tree, index_file }, Reply::Output(Ok(_))) => {
                let c = write_tree_cmd(Some(index_file.as_str()));
                self.stage = CreateStage::WorktreeTree { head, index_tree, index_file };
                Step::Git(c)
            },
            (CreateStage::WorktreeTree { head, index_tree, index_file }, Reply::Output(Ok(o))) => {
                self.stage = CreateStage::Clock { head, index_tree, worktree_tree: o };
                Step::ReadClock
            },
            (CreateStage::Clock { head, index_tree, worktree_tree }, Reply::Clock(Ok(secs))) => {
                let now = format_timestamp(secs);
                let message = build_commit_message(
                    self.checkpoint_id.as_str(),
                    head.as_str(),
                    index_tree.as_str(),
                    worktree_tree.as_str(),
                    now.as_str(),
                );
                let c = commit_tree_cmd(worktree_tree.as_str(), now.as_str(), message);
                self.stage = CreateStage::Commit;
                Step::Git(c)
            },
            (CreateStage::Commit, Reply::Output(Ok(o))) => {
                let name = ref_name_text(self.checkpoint_id.as_str());
                self.stage = CreateStage::UpdateRef;
                Step::Git(plain3_cmd("update-ref", name.as_str(), o.as_str()))
            },
            (CreateStage::UpdateRef, Reply::Output(Ok(_))) => Step::Done(
                Ok(CheckpointOutcome::Created),
            ),
            (CreateStage::Scratch { .. }, Reply::ScratchIndex(Err(e))) => Step::Done(Err(e)),
            (CreateStage::Clock { .. }, Reply::Clock(Err(e))) => Step::Done(Err(e)),
            (st, Reply::Output(Err(e))) => {
                let expected = match st {
                    CreateStage::WorkTree | CreateStage::GitDir | CreateStage::IndexTree { .. }
                    | CreateStage::Seed { .. } | CreateStage::StageAll { .. }
                    | CreateStage::WorktreeTree { .. } | CreateStage::Commit
                    | CreateStage::UpdateRef => true,
                    _ => false,
                };
                if expected {
                    Step::Done(Err(e))
                } else {
                    unexpected()
                }
            },
            _ => unexpected(),
        }
    }
}

/// Starts a `restore` of checkpoint `checkpoint_id` onto the working tree at
/// `repo_path`. An invalid id ends it at once, before any command runs.
///
/// The restore resets the branch, the index and the working tree to the
/// recorded `head`, lays the recorded working tree over it, removes the
/// untracked files that the checkpoint does not hold, and puts the recorded
/// index back: it destroys work that the checkpoint does not hold.
pub fn restore_checkpoint(repo_path: &str, checkpoint_id: &str) -> (r: (RestoreRun, Step<()>))
    ensures
        restore_started(repo_path@, checkpoint_id@, r.0, r.1),
{
    let repo = repo_path.to_owned();
    let id = checkpoint_id.to_owned();
    match validate_checkpoint_id(checkpoint_id) {
        Err(e) => (RestoreRun { repo_path: repo, checkpoint_id: id, stage: RestoreStage::Over }, Step::Done(Err(e))),
        Ok(()) => (RestoreRun { repo_path: repo, checkpoint_id: id, stage: RestoreStage::WorkTree }, Step::Git(is_inside_cmd())),
    }
}

fn body_step(body: &str, stage: &mut RestoreStage) -> (s: Step<()>)
    ensures
        restore_body_step(body@, *final(stage), s),
{
    let head = match extract_meta(body, "head") {
        Ok(v) => v,
        Err(e) => {
            *stage = RestoreStage::Over;
            return Step::Done(Err(e));
        },
    };
    let index_tree = match extract_meta(body, "index-tree") {
        Ok(v) => v,
        Err(e) => {
            *stage = RestoreStage::Over;
            return Step::Done(Err(e));
        },
    };
    let worktree_tree = match extract_meta(body, "worktree-tree") {
        Ok(v) => v,
        Err(e) => {
            *stage = RestoreStage::Over;
            return Step::Done(Err(e));
        },
    };
    if same_text(head.as_str(), "0000000000000000000000000000000000000000") {
        *stage = RestoreStage::Over;
        return Step::Done(Err(CheckpointError::InvalidState(String::from_str(
            "Checkpoint saved with unborn HEAD and cannot be restored",
        ))));
    }
    let c = plain3_cmd("reset", "--hard", head.as_str());
    *stage = RestoreStage::Reset { index_tree, worktree_tree };
    Step::Git(c)
}

impl RestoreRun {
    /// Takes the answer to the last step and gives the next one.
    pub fn advance(&mut self, reply: Reply) -> (s: Step<()>)
        ensures
            restore_transition(*old(self), reply, *final(self), s),
    {
        reveal(restore_transition);
        let mut stage = RestoreStage::Over;
        std::mem::swap(&mut self.stage, &mut stage);
        proof {
            reveal_strlit("true");
        }
        match (stage, reply) {
            (RestoreStage::WorkTree, Reply::Output(Ok(o))) => {
                if same_text(o.as_str(), "true") {
                    let name = ref_name_text(self.checkpoint_id.as_str());
                    self.stage = RestoreStage::Resolve;
                    Step::Git(verify_cmd(name.as_str()))
                } else {
                    not_a_worktree()
                }
            },
            (RestoreStage::Resolve, Reply::Output(Ok(o))) => {
                self.stage = RestoreStage::ReadBody;
                Step::Git(plain3_cmd("cat-file", "commit", o.as_str()))
            },
            (RestoreStage::Resolve, Reply::Output(Err(e))) => {
                match e {
                    CheckpointError::Git { .. } => {
                        let mut m = String::from_str("Checkpoint not found: ");
                        m.append(self.checkpoint_id.as_str());
                        Step::Done(Err(CheckpointError::NotFound(m)))
                    },
                    _ => Step::Done(Err(e)),
                }
            },
            (RestoreStage::ReadBody, Reply::Output(Ok(o))) => body_step(o.as_str(), &mut self.stage),
            (RestoreStage::Reset { index_tree, worktree_tree }, Reply::Output(Ok(_))) => {
                let c = plain4_cmd("read-tree", "--reset", "-u", worktree_tree.as_str());
                self.stage = RestoreStage::Overlay { index_tree };
                Step::Git(c)
            },
            (RestoreStage::Overlay { index_tree }, Reply::Output(Ok(_))) => {
                self.stage = RestoreStage::Clean { index_tree };
                Step::Git(plain2_cmd("clean", "-fd"))
            },
            (RestoreStage::Clean { index_tree }, Reply::Output(Ok(_))) => {
                self.stage = RestoreStage::IndexReset;
                Step::Git(plain3_cmd("read-tree", "--reset", index_tree.as_str()))
            },
            (RestoreStage::IndexReset, Reply::Output(Ok(_))) => Step::Done(Ok(())),
            (RestoreStage::Over, Reply::Output(Err(_))) => unexpected(),
            (_, Reply::Output(Err(e))) => Step::Done(Err(e)),
            _ => unexpected(),
        }
    }
}

/// Starts a `delete` of checkpoint `checkpoint_id` in the repository at
/// `repo_path`. Removing a ref that does not exist is not told apart from
/// removing one that does.
pub fn delete_checkpoint(repo_path: &str, checkpoint_id: &str) -> (r: (DeleteRun, Step<()>))
    ensures
        delete_started(repo_path@, checkpoint_id@, r.0, r.1),
{
    let repo = repo_path.to_owned();
    let id = checkpoint_id.to_owned();
    match validate_checkpoint_id(checkpoint_id) {
        Err(e) => (DeleteRun { repo_path: repo, checkpoint_id: id, stage: DeleteStage::Over }, Step::Done(Err(e))),
        Ok(()) => (DeleteRun { repo_path: repo, checkpoint_id: id, stage: DeleteStage::WorkTree }, Step::Git(is_inside_cmd())),
    }
}

impl DeleteRun {
    /// Takes the answer to the last step and gives the next one.
    pub fn advance(&mut self, reply: Reply) -> (s: Step<()>)
        ensures
            delete_transition(*old(self), reply, *final(self), s),
    {
        let mut stage = DeleteStage::Over;
        std::mem::swap(&mut self.stage, &mut stage);
        proof {
            reveal_strlit("true");
        }
        match (stage, reply) {
            (DeleteStage::WorkTree, Reply::Output(Ok(o))) => {
                if same_text(o.as_str(), "true") {
                    let name = ref_name_text(self.checkpoint_id.as_str());
                    self.stage = DeleteStage::Remove;
                    Step::Git(plain3_cmd("update-ref", "-d", name.as_str()))
                } else {
                    not_a_worktree()
                }
            },
            (DeleteStage::Remove, Reply::Output(Ok(_))) => Step::Done(Ok(())),
            (DeleteStage::WorkTree, Reply::Output(Err(e))) => Step::Done(Err(e)),
            (DeleteStage::Remove, Reply::Output(Err(e))) => Step::Done(Err(e)),
            _ => unexpected(),
        }
    }
}

} // verus!
