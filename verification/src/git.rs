//! The retrieval and merge engine's decisions.
//!
//! Retrieving a template is a conversation with a VCS engine: the library
//! decides which VCS steps to take, the caller performs them (clone, fetch,
//! checkout, merge — all of it network and disk work) and reports what it
//! observed, and the library decides the next steps. Every decision of that
//! state machine lives here; nothing in this module touches a repository.

use vstd::prelude::*;
use crate::Error;

verus! {

/// How the freshly fetched commit relates to the local branch tip, and the
/// outcome of acting on it. `UpToDate`, `FastForward` and `Normal` come
/// from the merge analysis of a pull; `Conflicted` is the refinement of
/// `Normal` once the three-way merge of the trees reports conflicts. It is
/// computed fresh per pull and never persisted.
#[derive(Debug, Clone, Copy, PartialEq, Eq, Structural)]
pub enum MergeAnalysisResult {
    UpToDate,
    FastForward,
    Normal,
    Conflicted,
}

/// One VCS step the caller performs against the working copy. The caller
/// applies a command list strictly in order and aborts on the first failing
/// step, reporting it as a retrieval failure.
#[derive(Debug, Clone, Copy, PartialEq, Eq, Structural)]
pub enum VcsCommand {
    /// Create the destination directory and any missing parents.
    CreateDirAll,
    /// Clone the remote's default branch into the destination.
    CloneDefaultBranch,
    /// Force-checkout the working tree to the requested revision,
    /// discarding untracked and ignored files.
    ForceCheckoutRev,
    /// Fetch the requested revision from the remote; a merge analysis of
    /// the fetched commit follows.
    FetchRev,
    /// Move the existing local branch reference to the fetched commit.
    SetBranchTarget,
    /// Create the local branch reference at the fetched commit.
    CreateBranchRef,
    /// Make that branch the current head.
    SetHeadToBranch,
    /// Force-checkout the working tree to match the head.
    ForceCheckoutHead,
    /// Force-checkout the working tree to match the head, allowing
    /// conflicts (fresh or empty repository).
    ForceCheckoutHeadAllowConflicts,
    /// Three-way-merge the trees of the merge base, the local commit and
    /// the fetched commit into an index; its conflict state follows.
    MergeTrees,
    /// Apply the conflicted merged index to the working tree, leaving
    /// conflict markers for manual resolution.
    ApplyConflictedIndex,
    /// Write the cleanly merged tree and commit it with the local and the
    /// fetched commit as parents, moving head to the merge commit.
    CreateMergeCommit,
    /// Check the working tree out to match the head.
    CheckoutHead,
}

/// The steps a retrieval takes before any merge decision: clone into a
/// fresh destination, or reset an existing one and fetch.
pub open spec fn retrieve_commands_spec(dst_exists: bool) -> Seq<VcsCommand> {
    if dst_exists {
        seq![VcsCommand::ForceCheckoutRev, VcsCommand::FetchRev]
    } else {
        seq![VcsCommand::CreateDirAll, VcsCommand::CloneDefaultBranch, VcsCommand::ForceCheckoutRev]
    }
}

/// Decide the first phase of a retrieval. A missing destination is created
/// and cloned, then checked out at the revision; an existing one is
/// force-reset to the revision, then the revision is fetched so the merge
/// decisions of [`do_merge_commands`] can follow.
pub fn retrieve_commands(dst_exists: bool) -> (cmds: Vec<VcsCommand>)
    ensures
        cmds@ == retrieve_commands_spec(dst_exists),
{
    let mut cmds: Vec<VcsCommand> = Vec::new();
    if dst_exists {
        cmds.push(VcsCommand::ForceCheckoutRev);
        cmds.push(VcsCommand::FetchRev);
        proof {
            assert(cmds@ =~= retrieve_commands_spec(dst_exists));
        }
    } else {
        cmds.push(VcsCommand::CreateDirAll);
        cmds.push(VcsCommand::CloneDefaultBranch);
        cmds.push(VcsCommand::ForceCheckoutRev);
        proof {
            assert(cmds@ =~= retrieve_commands_spec(dst_exists));
        }
    }
    cmds
}

/// The steps the merge engine takes for a merge analysis: nothing when up
/// to date; a branch move (or branch creation in a fresh repository) and a
/// forced checkout for a fast-forward; a three-way tree merge when the
/// histories diverged.
pub open spec fn do_merge_commands_spec(
    analysis: MergeAnalysisResult,
    local_branch_exists: bool,
) -> Seq<VcsCommand> {
    match analysis {
        MergeAnalysisResult::UpToDate => Seq::empty(),
        MergeAnalysisResult::FastForward => if local_branch_exists {
            seq![
                VcsCommand::SetBranchTarget,
                VcsCommand::SetHeadToBranch,
                VcsCommand::ForceCheckoutHead,
            ]
        } else {
            seq![
                VcsCommand::CreateBranchRef,
                VcsCommand::SetHeadToBranch,
                VcsCommand::ForceCheckoutHeadAllowConflicts,
            ]
        },
        MergeAnalysisResult::Normal => seq![VcsCommand::MergeTrees],
        MergeAnalysisResult::Conflicted => seq![VcsCommand::MergeTrees],
    }
}

/// Decide what a pull does with the fetched commit, given the merge
/// analysis and whether the local branch reference exists.
pub fn do_merge_commands(analysis: MergeAnalysisResult, local_branch_exists: bool) -> (cmds: Vec<
    VcsCommand,
>)
    ensures
        cmds@ == do_merge_commands_spec(analysis, local_branch_exists),
{
    let mut cmds: Vec<VcsCommand> = Vec::new();
    match analysis {
        MergeAnalysisResult::UpToDate => {
            proof {
                assert(cmds@ =~= do_merge_commands_spec(analysis, local_branch_exists));
            }
        },
        MergeAnalysisResult::FastForward => {
            if local_branch_exists {
                cmds.push(VcsCommand::SetBranchTarget);
                cmds.push(VcsCommand::SetHeadToBranch);
                cmds.push(VcsCommand::ForceCheckoutHead);
            } else {
                cmds.push(VcsCommand::CreateBranchRef);
                cmds.push(VcsCommand::SetHeadToBranch);
                cmds.push(VcsCommand::ForceCheckoutHeadAllowConflicts);
            }
            proof {
                assert(cmds@ =~= do_merge_commands_spec(analysis, local_branch_exists));
            }
        },
        _ => {
            cmds.push(VcsCommand::MergeTrees);
            proof {
                assert(cmds@ =~= do_merge_commands_spec(analysis, local_branch_exists));
            }
        },
    }
    cmds
}

/// The steps that follow a three-way tree merge: a conflicted index is
/// applied to the working tree (markers left, no commit); a clean one is
/// committed with both parents and checked out.
pub open spec fn normal_merge_commands_spec(has_conflicts: bool) -> Seq<VcsCommand> {
    if has_conflicts {
        seq![VcsCommand::ApplyConflictedIndex]
    } else {
        seq![VcsCommand::CreateMergeCommit, VcsCommand::CheckoutHead]
    }
}

/// Decide how a three-way merge result reaches the working tree.
pub fn normal_merge_commands(has_conflicts: bool) -> (cmds: Vec<VcsCommand>)
    ensures
        cmds@ == normal_merge_commands_spec(has_conflicts),
{
    let mut cmds: Vec<VcsCommand> = Vec::new();
    if has_conflicts {
        cmds.push(VcsCommand::ApplyConflictedIndex);
    } else {
        cmds.push(VcsCommand::CreateMergeCommit);
        cmds.push(VcsCommand::CheckoutHead);
    }
    proof {
        assert(cmds@ =~= normal_merge_commands_spec(has_conflicts));
    }
    cmds
}

/// The final classification of a pull, refining `Normal` by the conflict
/// state of the merged index.
pub fn merge_outcome(analysis: MergeAnalysisResult, has_conflicts: bool) -> (r:
    MergeAnalysisResult)
    ensures
        analysis == MergeAnalysisResult::Normal && has_conflicts ==> r
            == MergeAnalysisResult::Conflicted,
        analysis == MergeAnalysisResult::Normal && !has_conflicts ==> r
            == MergeAnalysisResult::Normal,
        analysis != MergeAnalysisResult::Normal ==> r == analysis,
{
    match analysis {
        MergeAnalysisResult::Normal => {
            if has_conflicts {
                MergeAnalysisResult::Conflicted
            } else {
                MergeAnalysisResult::Normal
            }
        },
        _ => analysis,
    }
}

/// A conflicted pull warns and goes on; every other outcome is silent.
pub fn merge_warning(outcome: MergeAnalysisResult) -> (r: Option<Error>)
    ensures
        outcome == MergeAnalysisResult::Conflicted <==> r == Some(Error::MergeConflicted),
        outcome != MergeAnalysisResult::Conflicted <==> r is None,
{
    match outcome {
        MergeAnalysisResult::Conflicted => Some(Error::MergeConflicted),
        _ => None,
    }
}

/// Bytes of the configuration key pieces (ASCII).
pub const DOT: u8 = 46;
pub const LETTER_T: u8 = 116;
pub const LETTER_O: u8 = 111;
pub const LETTER_L: u8 = 108;
pub const LETTER_C: u8 = 99;
pub const LETTER_M: u8 = 109;
pub const LETTER_D: u8 = 100;

/// The suffix of the configuration key that names a kind's tool.
pub open spec fn dot_tool_suffix() -> Seq<u8> {
    seq![DOT, LETTER_T, LETTER_O, LETTER_O, LETTER_L]
}

/// The infix between a kind and a tool name in the command key.
pub open spec fn tool_dot_infix() -> Seq<u8> {
    seq![LETTER_T, LETTER_O, LETTER_O, LETTER_L, DOT]
}

/// The suffix of the configuration key that holds a tool's command.
pub open spec fn dot_cmd_suffix() -> Seq<u8> {
    seq![DOT, LETTER_C, LETTER_M, LETTER_D]
}

/// The first key resolving a tool reads: `<kind>.tool`, whose value names
/// the configured tool of that kind.
pub fn tool_name_key(kind: &Vec<u8>) -> (r: Vec<u8>)
    ensures
        r@ == kind@ + dot_tool_suffix(),
{
    let mut r = kind.clone();
    r.push(DOT);
    r.push(LETTER_T);
    r.push(LETTER_O);
    r.push(LETTER_O);
    r.push(LETTER_L);
    proof {
        assert(r@ =~= kind@ + dot_tool_suffix());
    }
    r
}

/// The second key resolving a tool reads: `<kind>tool.<tool>.cmd`, whose
/// value is the tool's invocation command.
pub fn tool_cmd_key(kind: &Vec<u8>, tool: &Vec<u8>) -> (r: Vec<u8>)
    ensures
        r@ == kind@ + tool_dot_infix() + tool@ + dot_cmd_suffix(),
{
    let mut r = kind.clone();
    r.push(LETTER_T);
    r.push(LETTER_O);
    r.push(LETTER_O);
    r.push(LETTER_L);
    r.push(DOT);
    let mut i: usize = 0;
    while i < tool.len()
        invariant
            i <= tool@.len(),
            r@ == kind@ + tool_dot_infix() + tool@.take(i as int),
        decreases tool@.len() - i,
    {
        r.push(tool[i]);
        proof {
            assert(kind@ + tool_dot_infix() + tool@.take(i as int) + seq![tool@[i as int]]
                =~= kind@ + tool_dot_infix() + tool@.take(i as int + 1));
        }
        i = i + 1;
    }
    proof {
        assert(kind@ + tool_dot_infix() =~= kind@ + tool_dot_infix() + tool@.take(0));
        assert(tool@.take(tool@.len() as int) =~= tool@);
    }
    r.push(DOT);
    r.push(LETTER_C);
    r.push(LETTER_M);
    r.push(LETTER_D);
    proof {
        assert(r@ =~= kind@ + tool_dot_infix() + tool@ + dot_cmd_suffix());
    }
    r
}

/// An abstract repository: the local branch tip, if the branch exists, and
/// the tree the working directory is checked out at. The model tracks
/// reference updates and checkouts; fetching, analysing, directory
/// creation and the tree work of a merge leave it unchanged.
pub struct RepoModel {
    pub branch_tip: Option<int>,
    pub workdir_tree: int,
}

/// How one VCS command moves the abstract repository, given the fetched
/// commit, the tree of the requested revision, and the map from commits to
/// their trees.
pub open spec fn apply_vcs_command(
    m: RepoModel,
    c: VcsCommand,
    fetched: int,
    rev_tree: int,
    tree_of: Map<int, int>,
) -> RepoModel {
    match c {
        VcsCommand::SetBranchTarget => RepoModel { branch_tip: Some(fetched), ..m },
        VcsCommand::CreateBranchRef => RepoModel { branch_tip: Some(fetched), ..m },
        VcsCommand::ForceCheckoutRev => RepoModel { workdir_tree: rev_tree, ..m },
        VcsCommand::ForceCheckoutHead => match m.branch_tip {
            Some(tip) => RepoModel { workdir_tree: tree_of[tip], ..m },
            None => m,
        },
        VcsCommand::ForceCheckoutHeadAllowConflicts => match m.branch_tip {
            Some(tip) => RepoModel { workdir_tree: tree_of[tip], ..m },
            None => m,
        },
        VcsCommand::CheckoutHead => match m.branch_tip {
            Some(tip) => RepoModel { workdir_tree: tree_of[tip], ..m },
            None => m,
        },
        _ => m,
    }
}

/// Run a command list over the abstract repository, in order.
pub open spec fn apply_vcs_commands(
    m: RepoModel,
    cs: Seq<VcsCommand>,
    fetched: int,
    rev_tree: int,
    tree_of: Map<int, int>,
) -> RepoModel
    decreases cs.len(),
{
    if cs.len() == 0 {
        m
    } else {
        apply_vcs_commands(
            apply_vcs_command(m, cs[0], fetched, rev_tree, tree_of),
            cs.drop_first(),
            fetched,
            rev_tree,
            tree_of,
        )
    }
}

/// An up-to-date pull issues no command, so a second retrieval with no
/// upstream change leaves the repository — branch tip and working tree —
/// exactly as it found it.
pub proof fn lemma_up_to_date_pull_is_noop(
    m: RepoModel,
    local_branch_exists: bool,
    fetched: int,
    rev_tree: int,
    tree_of: Map<int, int>,
)
    ensures
        do_merge_commands_spec(MergeAnalysisResult::UpToDate, local_branch_exists) == Seq::<
            VcsCommand,
        >::empty(),
        apply_vcs_commands(
            m,
            do_merge_commands_spec(MergeAnalysisResult::UpToDate, local_branch_exists),
            fetched,
            rev_tree,
            tree_of,
        ) == m,
{
}

/// Retrieval is idempotent: on a destination already checked out at the
/// requested revision's tree, a second retrieval whose fetch finds nothing
/// new (an up-to-date analysis) leaves the repository — branch tip and
/// working tree — exactly as it found it.
pub proof fn lemma_retrieve_idempotent(
    m: RepoModel,
    local_branch_exists: bool,
    fetched: int,
    rev_tree: int,
    tree_of: Map<int, int>,
)
    requires
        m.workdir_tree == rev_tree,
    ensures
        apply_vcs_commands(
            apply_vcs_commands(m, retrieve_commands_spec(true), fetched, rev_tree, tree_of),
            do_merge_commands_spec(MergeAnalysisResult::UpToDate, local_branch_exists),
            fetched,
            rev_tree,
            tree_of,
        ) == m,
{
    let cs = retrieve_commands_spec(true);
    let d1 = cs.drop_first();
    let d2 = d1.drop_first();
    assert(cs.len() == 2 && d1[0] == cs[1] && d2.len() == 0);
    let m1 = apply_vcs_command(m, cs[0], fetched, rev_tree, tree_of);
    let m2 = apply_vcs_command(m1, d1[0], fetched, rev_tree, tree_of);
    assert(apply_vcs_commands(m, cs, fetched, rev_tree, tree_of) == apply_vcs_commands(
        m1,
        d1,
        fetched,
        rev_tree,
        tree_of,
    ));
    assert(apply_vcs_commands(m1, d1, fetched, rev_tree, tree_of) == apply_vcs_commands(
        m2,
        d2,
        fetched,
        rev_tree,
        tree_of,
    ));
    assert(m1 == m);
    assert(m2 == m);
}

/// A fast-forward pull ends with the branch tip on the fetched commit and
/// the working tree checked out at exactly the fetched commit's tree,
/// whether the local branch already existed or had to be created.
pub proof fn lemma_fast_forward_reaches_fetched_tree(
    m: RepoModel,
    local_branch_exists: bool,
    fetched: int,
    rev_tree: int,
    tree_of: Map<int, int>,
)
    ensures
        apply_vcs_commands(
            m,
            do_merge_commands_spec(MergeAnalysisResult::FastForward, local_branch_exists),
            fetched,
            rev_tree,
            tree_of,
        ) == (RepoModel { branch_tip: Some(fetched), workdir_tree: tree_of[fetched] }),
{
    let cs = do_merge_commands_spec(MergeAnalysisResult::FastForward, local_branch_exists);
    let d1 = cs.drop_first();
    let d2 = d1.drop_first();
    let d3 = d2.drop_first();
    assert(cs.len() == 3 && d1[0] == cs[1] && d2[0] == cs[2] && d3.len() == 0);
    let m1 = apply_vcs_command(m, cs[0], fetched, rev_tree, tree_of);
    let m2 = apply_vcs_command(m1, d1[0], fetched, rev_tree, tree_of);
    let m3 = apply_vcs_command(m2, d2[0], fetched, rev_tree, tree_of);
    assert(apply_vcs_commands(m, cs, fetched, rev_tree, tree_of) == apply_vcs_commands(
        m1,
        d1,
        fetched,
        rev_tree,
        tree_of,
    ));
    assert(apply_vcs_commands(m1, d1, fetched, rev_tree, tree_of) == apply_vcs_commands(
        m2,
        d2,
        fetched,
        rev_tree,
        tree_of,
    ));
    assert(apply_vcs_commands(m2, d2, fetched, rev_tree, tree_of) == apply_vcs_commands(
        m3,
        d3,
        fetched,
        rev_tree,
        tree_of,
    ));
    assert(apply_vcs_commands(m3, d3, fetched, rev_tree, tree_of) == m3);
}

/// A conflicted three-way merge applies the conflicted index and stops: no
/// merge commit is created, and the branch tip does not move, so the branch
/// still has no merge commit afterwards.
pub proof fn lemma_conflict_creates_no_merge_commit(
    m: RepoModel,
    fetched: int,
    rev_tree: int,
    tree_of: Map<int, int>,
)
    ensures
        !normal_merge_commands_spec(true).contains(VcsCommand::CreateMergeCommit),
        normal_merge_commands_spec(true).contains(VcsCommand::ApplyConflictedIndex),
        apply_vcs_commands(m, normal_merge_commands_spec(true), fetched, rev_tree, tree_of).branch_tip
            == m.branch_tip,
{
    let cs = normal_merge_commands_spec(true);
    assert(cs[0] == VcsCommand::ApplyConflictedIndex);
    assert(forall|k: int| 0 <= k < cs.len() ==> cs[k] == VcsCommand::ApplyConflictedIndex);
    let d1 = cs.drop_first();
    assert(d1.len() == 0);
    let m1 = apply_vcs_command(m, cs[0], fetched, rev_tree, tree_of);
    assert(apply_vcs_commands(m, cs, fetched, rev_tree, tree_of) == apply_vcs_commands(
        m1,
        d1,
        fetched,
        rev_tree,
        tree_of,
    ));
    assert(apply_vcs_commands(m1, d1, fetched, rev_tree, tree_of) == m1);
    assert(m1.branch_tip == m.branch_tip);
}

} // verus!
