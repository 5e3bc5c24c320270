//! Whole runs of the checkpoint operations, and what holds of every run.
use vstd::prelude::*;
use crate::checkpoint::CheckpointOutcome;
use crate::meta::{commit_message, is_word, lemma_line_end, lemma_message_round_trip, line_end, meta_value, single_line};
use crate::plumbing::plain_call;
use crate::store::{clean_args, create_started, create_transition, overlay_args, reset_hard_args, reset_index_args, restore_started, restore_transition, writes_ref, zero_oid, asks_git, CreateRun, CreateStage, Reply, RestoreRun, RestoreStage, Step};

verus! {

/// `runs[i]` is the state after the `i`-th reply, and `steps[i]` what it
/// asked for; `runs[0]` and `steps[0]` are what `create_checkpoint` gave.
pub open spec fn is_create_run(
    repo_path: Seq<char>,
    id: Seq<char>,
    runs: Seq<CreateRun>,
    replies: Seq<Reply>,
    steps: Seq<Step<CheckpointOutcome>>,
) -> bool {
    &&& runs.len() == replies.len() + 1
    &&& steps.len() == runs.len()
    &&& create_started(repo_path, id, runs[0], steps[0])
    &&& forall|i: int|
        0 <= i < replies.len() ==> create_transition(
            #[trigger] runs[i],
            replies[i],
            runs[i + 1],
            steps[i + 1],
        )
}

/// The same for `restore_checkpoint`.
pub open spec fn is_restore_run(
    repo_path: Seq<char>,
    id: Seq<char>,
    runs: Seq<RestoreRun>,
    replies: Seq<Reply>,
    steps: Seq<Step<()>>,
) -> bool {
    &&& runs.len() == replies.len() + 1
    &&& steps.len() == runs.len()
    &&& restore_started(repo_path, id, runs[0], steps[0])
    &&& forall|i: int|
        0 <= i < replies.len() ==> restore_transition(
            #[trigger] runs[i],
            replies[i],
            runs[i + 1],
            steps[i + 1],
        )
}

pub open spec fn is_skipped(s: Step<CheckpointOutcome>) -> bool {
    s matches Step::Done(Ok(CheckpointOutcome::Skipped { .. }))
}

/// How far a `create` has gone.
pub open spec fn create_rank(st: CreateStage) -> int {
    match st {
        CreateStage::WorkTree => 0,
        CreateStage::GitDir => 1,
        CreateStage::MergeState => 2,
        CreateStage::Head => 3,
        CreateStage::IndexTree { .. } => 4,
        CreateStage::Scratch { .. } => 5,
        CreateStage::Seed { .. } => 6,
        CreateStage::StageAll { .. } => 7,
        CreateStage::WorktreeTree { .. } => 8,
        CreateStage::Clock { .. } => 9,
        CreateStage::Commit => 10,
        CreateStage::UpdateRef => 11,
        CreateStage::Over => 12,
    }
}

proof fn lemma_create_move(a: CreateRun, reply: Reply, b: CreateRun, s: Step<CheckpointOutcome>)
    requires
        create_transition(a, reply, b, s),
    ensures
        create_rank(b.stage) > create_rank(a.stage) || (a.stage is Over && b.stage is Over),
        writes_ref(s) ==> a.stage is Commit,
        is_skipped(s) ==> create_rank(a.stage) <= 3,
{
    reveal_strlit("update-ref");
    reveal_strlit("rev-parse");
    reveal_strlit("write-tree");
    reveal_strlit("read-tree");
    reveal_strlit("add");
    reveal_strlit("commit-tree");
    if writes_ref(s) {
        let g = s->Git_0;
        assert(g@.args[0] == "update-ref"@);
        assert("rev-parse"@.len() != "update-ref"@.len());
        assert("write-tree"@[0] != "update-ref"@[0]);
        assert("read-tree"@.len() != "update-ref"@.len());
        assert("add"@.len() != "update-ref"@.len());
        assert("commit-tree"@.len() != "update-ref"@.len());
    }
}

proof fn lemma_create_ranks(
    repo_path: Seq<char>,
    id: Seq<char>,
    runs: Seq<CreateRun>,
    replies: Seq<Reply>,
    steps: Seq<Step<CheckpointOutcome>>,
    i: int,
    j: int,
)
    requires
        is_create_run(repo_path, id, runs, replies, steps),
        0 <= i <= j < runs.len(),
    ensures
        create_rank(runs[i].stage) <= create_rank(runs[j].stage),
        runs[i].stage is Over ==> runs[j].stage is Over,
    decreases j - i,
{
    if i < j {
        lemma_create_ranks(repo_path, id, runs, replies, steps, i, j - 1);
        lemma_create_move(runs[j - 1], replies[j - 1], runs[j], steps[j]);
    }
}

/// A `create` that ends in `Skipped` asks at no point to write or remove a
/// ref.
#[verifier::rlimit(60)]
pub proof fn lemma_skipped_create_writes_no_ref(
    repo_path: Seq<char>,
    id: Seq<char>,
    runs: Seq<CreateRun>,
    replies: Seq<Reply>,
    steps: Seq<Step<CheckpointOutcome>>,
    k: int,
)
    requires
        is_create_run(repo_path, id, runs, replies, steps),
        0 <= k < steps.len(),
        is_skipped(steps[k]),
    ensures
        forall|j: int| 0 <= j < steps.len() ==> !writes_ref(#[trigger] steps[j]),
{
    reveal_strlit("update-ref");
    reveal_strlit("rev-parse");
    assert("rev-parse"@.len() != "update-ref"@.len());
    assert(k > 0);
    lemma_create_move(runs[k - 1], replies[k - 1], runs[k], steps[k]);
    assert forall|j: int| 0 <= j < steps.len() implies !writes_ref(#[trigger] steps[j]) by {
        if j > 0 && writes_ref(steps[j]) {
            lemma_create_move(runs[j - 1], replies[j - 1], runs[j], steps[j]);
            if j < k {
                lemma_create_ranks(repo_path, id, runs, replies, steps, j, k - 1);
            } else {
                lemma_create_ranks(repo_path, id, runs, replies, steps, k, j - 1);
            }
        }
    }
}

proof fn lemma_line_end_facts(s: Seq<char>)
    ensures
        line_end(s) <= s.len(),
        forall|k: int| 0 <= k < line_end(s) ==> #[trigger] s[k] != '\n',
        line_end(s) < s.len() ==> s[line_end(s) as int] == '\n',
    decreases s.len(),
{
    if s.len() > 0 && s[0] != '\n' {
        lemma_line_end_facts(s.drop_first());
        assert forall|k: int| 0 <= k < line_end(s) implies #[trigger] s[k] != '\n' by {
            if k > 0 {
                assert(s[k] == s.drop_first()[k - 1]);
            }
        }
    }
}

/// Whether `h` is a run of whole lines none of which gives a value for `key`.
pub open spec fn silent_on(h: Seq<char>, key: Seq<char>) -> bool {
    h.len() == 0 || (h.last() == '\n' && meta_value(h, key) is None)
}

proof fn lemma_silent_prefix(h: Seq<char>, m: Seq<char>, key: Seq<char>)
    requires
        silent_on(h, key),
    ensures
        meta_value(h + m, key) == meta_value(m, key),
    decreases h.len(),
{
    if h.len() == 0 {
        assert(h + m == m);
    } else {
        let b = h + m;
        lemma_line_end_facts(h);
        let e = line_end(h) as int;
        if e == h.len() {
            assert(h[h.len() - 1] != '\n');
        }
        assert forall|k: int| 0 <= k < e implies #[trigger] b[k] != '\n' by {
            assert(b[k] == h[k]);
        }
        assert(b[e] == h[e]);
        lemma_line_end(b, e);
        assert(b.subrange(0, e) == h.subrange(0, e));
        let h2 = h.subrange(e + 1, h.len() as int);
        assert(b.subrange(e + 1, b.len() as int) == h2 + m);
        if h2.len() > 0 {
            assert(h2.last() == h.last());
        }
        lemma_silent_prefix(h2, m, key);
    }
}

/// Whether `h`, the header lines that git puts before a commit's message,
/// gives no value for any of the three keys that a checkpoint records.
pub open spec fn neutral_header(h: Seq<char>) -> bool {
    silent_on(h, "head"@) && silent_on(h, "index-tree"@) && silent_on(h, "worktree-tree"@)
}

/// What `restore` asks once it has read the commit that `create` wrote: to
/// reset to the recorded `head`, to lay the recorded working tree over it, to
/// clean, and to put the recorded index back; and then it is done.
pub proof fn lemma_restore_of_created(
    repo_path: Seq<char>,
    id: Seq<char>,
    head: Seq<char>,
    index_tree: Seq<char>,
    worktree_tree: Seq<char>,
    created: Seq<char>,
    header: Seq<char>,
    runs: Seq<RestoreRun>,
    replies: Seq<Reply>,
    steps: Seq<Step<()>>,
)
    requires
        single_line(id),
        single_line(created),
        is_word(head),
        is_word(index_tree),
        is_word(worktree_tree),
        head != zero_oid(),
        neutral_header(header),
        is_restore_run(repo_path, id, runs, replies, steps),
        replies.len() == 7,
        runs[2].stage is ReadBody,
        replies[2] matches Reply::Output(Ok(body)) && body@ == header + commit_message(
            id,
            head,
            index_tree,
            worktree_tree,
            created,
        ),
        forall|i: int| 3 <= i < 7 ==> #[trigger] replies[i] matches Reply::Output(Ok(_)),
    ensures
        asks_git(steps[3], plain_call(reset_hard_args(head))),
        asks_git(steps[4], plain_call(overlay_args(worktree_tree))),
        asks_git(steps[5], plain_call(clean_args())),
        asks_git(steps[6], plain_call(reset_index_args(index_tree))),
        steps[7] matches Step::Done(Ok(())),
{
    reveal(restore_transition);
    let m = commit_message(id, head, index_tree, worktree_tree, created);
    lemma_message_round_trip(id, head, index_tree, worktree_tree, created);
    lemma_silent_prefix(header, m, "head"@);
    lemma_silent_prefix(header, m, "index-tree"@);
    lemma_silent_prefix(header, m, "worktree-tree"@);
    assert(restore_transition(runs[2], replies[2], runs[3], steps[3]));
    assert(replies[3] matches Reply::Output(Ok(_)));
    assert(restore_transition(runs[3], replies[3], runs[4], steps[4]));
    assert(replies[4] matches Reply::Output(Ok(_)));
    assert(restore_transition(runs[4], replies[4], runs[5], steps[5]));
    assert(replies[5] matches Reply::Output(Ok(_)));
    assert(restore_transition(runs[5], replies[5], runs[6], steps[6]));
    assert(replies[6] matches Reply::Output(Ok(_)));
    assert(restore_transition(runs[6], replies[6], runs[7], steps[7]));
}

/// Whether two restores stand at the same point with the same values.
pub open spec fn same_restore_stage(a: RestoreStage, b: RestoreStage) -> bool {
    match (a, b) {
        (RestoreStage::WorkTree, RestoreStage::WorkTree) => true,
        (RestoreStage::Resolve, RestoreStage::Resolve) => true,
        (RestoreStage::ReadBody, RestoreStage::ReadBody) => true,
        (
            RestoreStage::Reset { index_tree: t1, worktree_tree: w1 },
            RestoreStage::Reset { index_tree: t2, worktree_tree: w2 },
        ) => t1@ == t2@ && w1@ == w2@,
        (RestoreStage::Overlay { index_tree: t1 }, RestoreStage::Overlay { index_tree: t2 }) => t1@
            == t2@,
        (RestoreStage::Clean { index_tree: t1 }, RestoreStage::Clean { index_tree: t2 }) => t1@
            == t2@,
        (RestoreStage::IndexReset, RestoreStage::IndexReset) => true,
        (RestoreStage::Over, RestoreStage::Over) => true,
        _ => false,
    }
}

/// Whether two steps ask for the same thing.
pub open spec fn same_request<T>(a: Step<T>, b: Step<T>) -> bool {
    &&& a is Git <==> b is Git
    &&& a is Git ==> a->Git_0@ == b->Git_0@
    &&& a is Done <==> b is Done
    &&& a is Done ==> (a->Done_0 is Ok <==> b->Done_0 is Ok)
}

/// Whether a reply is the output of a command that succeeded.
pub open spec fn succeeded(r: Reply) -> bool {
    r matches Reply::Output(Ok(_))
}

pub open spec fn output_of(r: Reply) -> Seq<char> {
    r->Output_0->Ok_0@
}

/// Restoring depends on the checkpoint alone. Take two restores of one id
/// at the same point with the same values, each given the output of a
/// command that succeeded; where the point is one at which the output is
/// read (the work-tree check, the ref's commit, the commit's content), let
/// the two outputs be the same. Then the two move to the same point and ask
/// for the same thing, whatever the two working trees held and whatever else
/// the commands printed. So two restores of one checkpoint that meet no
/// failure ask for the same commands in the same order, and restoring twice
/// in a row ends in the same tree both times.
pub proof fn lemma_restore_is_repeatable(
    a1: RestoreRun,
    r1: Reply,
    b1: RestoreRun,
    s1: Step<()>,
    a2: RestoreRun,
    r2: Reply,
    b2: RestoreRun,
    s2: Step<()>,
)
    requires
        restore_transition(a1, r1, b1, s1),
        restore_transition(a2, r2, b2, s2),
        a1.checkpoint_id@ == a2.checkpoint_id@,
        same_restore_stage(a1.stage, a2.stage),
        succeeded(r1),
        succeeded(r2),
        a1.stage is WorkTree || a1.stage is Resolve || a1.stage is ReadBody ==> output_of(r1)
            == output_of(r2),
    ensures
        same_restore_stage(b1.stage, b2.stage),
        same_request(s1, s2),
{
    reveal(restore_transition);
}

/// Whether a restore stands before its reset: where the output of a command
/// is still read.
pub open spec fn reading_stage(st: RestoreStage) -> bool {
    st is WorkTree || st is Resolve || st is ReadBody
}

proof fn lemma_restore_order(a: RestoreRun, r: Reply, b: RestoreRun, s: Step<()>)
    requires
        restore_transition(a, r, b, s),
        succeeded(r),
    ensures
        a.stage is WorkTree ==> b.stage is Resolve || b.stage is Over,
        a.stage is Resolve ==> b.stage is ReadBody || b.stage is Over,
        !(a.stage is WorkTree) && !(a.stage is Resolve) ==> !reading_stage(b.stage),
        a.stage is Over ==> b.stage is Over,
        b.checkpoint_id == a.checkpoint_id,
{
    reveal(restore_transition);
}

proof fn lemma_restores_in_step(
    repo_a: Seq<char>,
    repo_b: Seq<char>,
    id: Seq<char>,
    runs_a: Seq<RestoreRun>,
    replies_a: Seq<Reply>,
    steps_a: Seq<Step<()>>,
    runs_b: Seq<RestoreRun>,
    replies_b: Seq<Reply>,
    steps_b: Seq<Step<()>>,
    i: int,
)
    requires
        is_restore_run(repo_a, id, runs_a, replies_a, steps_a),
        is_restore_run(repo_b, id, runs_b, replies_b, steps_b),
        replies_a.len() == replies_b.len(),
        forall|k: int|
            0 <= k < replies_a.len() ==> succeeded(#[trigger] replies_a[k]) && succeeded(
                replies_b[k],
            ),
        forall|k: int|
            0 <= k < replies_a.len() && k < 3 ==> output_of(#[trigger] replies_a[k]) == output_of(
                replies_b[k],
            ),
        0 <= i < runs_a.len(),
    ensures
        same_restore_stage(runs_a[i].stage, runs_b[i].stage),
        same_request(steps_a[i], steps_b[i]),
        i == 0 ==> runs_a[i].stage is WorkTree || runs_a[i].stage is Over,
        i == 1 ==> runs_a[i].stage is Resolve || runs_a[i].stage is Over,
        i >= 2 ==> !(runs_a[i].stage is WorkTree) && !(runs_a[i].stage is Resolve),
        i >= 3 ==> !reading_stage(runs_a[i].stage),
        runs_a[i].checkpoint_id@ == id,
        runs_b[i].checkpoint_id@ == id,
    decreases i,
{
    if i > 0 {
        lemma_restores_in_step(
            repo_a,
            repo_b,
            id,
            runs_a,
            replies_a,
            steps_a,
            runs_b,
            replies_b,
            steps_b,
            i - 1,
        );
        let k = i - 1;
        assert(restore_transition(runs_a[k], replies_a[k], runs_a[i], steps_a[i]));
        assert(restore_transition(runs_b[k], replies_b[k], runs_b[i], steps_b[i]));
        assert(succeeded(replies_a[k]) && succeeded(replies_b[k]));
        if reading_stage(runs_a[k].stage) {
            assert(output_of(replies_a[k]) == output_of(replies_b[k]));
        }
        lemma_restore_order(runs_a[k], replies_a[k], runs_a[i], steps_a[i]);
        lemma_restore_order(runs_b[k], replies_b[k], runs_b[i], steps_b[i]);
        lemma_restore_is_repeatable(
            runs_a[k],
            replies_a[k],
            runs_a[i],
            steps_a[i],
            runs_b[k],
            replies_b[k],
            runs_b[i],
            steps_b[i],
        );
    }
}

/// Two restores of one id that meet no failure, and that find the ref at
/// the same commit with the same content, ask for the same things in the
/// same order, whatever the two working trees held and whatever else the
/// commands printed.
pub proof fn lemma_restores_ask_alike(
    repo_a: Seq<char>,
    repo_b: Seq<char>,
    id: Seq<char>,
    runs_a: Seq<RestoreRun>,
    replies_a: Seq<Reply>,
    steps_a: Seq<Step<()>>,
    runs_b: Seq<RestoreRun>,
    replies_b: Seq<Reply>,
    steps_b: Seq<Step<()>>,
)
    requires
        is_restore_run(repo_a, id, runs_a, replies_a, steps_a),
        is_restore_run(repo_b, id, runs_b, replies_b, steps_b),
        replies_a.len() == replies_b.len(),
        forall|k: int|
            0 <= k < replies_a.len() ==> succeeded(#[trigger] replies_a[k]) && succeeded(
                replies_b[k],
            ),
        forall|k: int|
            0 <= k < replies_a.len() && k < 3 ==> output_of(#[trigger] replies_a[k]) == output_of(
                replies_b[k],
            ),
    ensures
        forall|i: int| 0 <= i < steps_a.len() ==> same_request(#[trigger] steps_a[i], steps_b[i]),
{
    assert forall|i: int| 0 <= i < steps_a.len() implies same_request(
        #[trigger] steps_a[i],
        steps_b[i],
    ) by {
        lemma_restores_in_step(
            repo_a,
            repo_b,
            id,
            runs_a,
            replies_a,
            steps_a,
            runs_b,
            replies_b,
            steps_b,
            i,
        );
    }
}

} // verus!
