use ffizer::git::{
    do_merge_commands, merge_outcome, merge_warning, normal_merge_commands, retrieve_commands,
    tool_cmd_key, tool_name_key, MergeAnalysisResult, VcsCommand,
};
use ffizer::Error;

#[test]
fn retrieve_clones_into_a_fresh_destination() {
    assert_eq!(
        retrieve_commands(false),
        vec![
            VcsCommand::CreateDirAll,
            VcsCommand::CloneDefaultBranch,
            VcsCommand::ForceCheckoutRev,
        ]
    );
}

#[test]
fn retrieve_resets_and_fetches_an_existing_destination() {
    assert_eq!(
        retrieve_commands(true),
        vec![VcsCommand::ForceCheckoutRev, VcsCommand::FetchRev]
    );
}

#[test]
fn up_to_date_pull_does_nothing() {
    assert!(do_merge_commands(MergeAnalysisResult::UpToDate, true).is_empty());
    assert!(do_merge_commands(MergeAnalysisResult::UpToDate, false).is_empty());
}

#[test]
fn fast_forward_moves_the_branch_and_checks_out() {
    assert_eq!(
        do_merge_commands(MergeAnalysisResult::FastForward, true),
        vec![
            VcsCommand::SetBranchTarget,
            VcsCommand::SetHeadToBranch,
            VcsCommand::ForceCheckoutHead,
        ]
    );
    // fresh or empty repository: the branch reference is created instead
    assert_eq!(
        do_merge_commands(MergeAnalysisResult::FastForward, false),
        vec![
            VcsCommand::CreateBranchRef,
            VcsCommand::SetHeadToBranch,
            VcsCommand::ForceCheckoutHeadAllowConflicts,
        ]
    );
}

#[test]
fn diverged_histories_merge_the_trees() {
    assert_eq!(
        do_merge_commands(MergeAnalysisResult::Normal, true),
        vec![VcsCommand::MergeTrees]
    );
}

#[test]
fn conflicted_merge_leaves_markers_and_no_merge_commit() {
    let cmds = normal_merge_commands(true);
    assert_eq!(cmds, vec![VcsCommand::ApplyConflictedIndex]);
    assert!(!cmds.contains(&VcsCommand::CreateMergeCommit));
}

#[test]
fn clean_merge_commits_and_checks_out() {
    assert_eq!(
        normal_merge_commands(false),
        vec![VcsCommand::CreateMergeCommit, VcsCommand::CheckoutHead]
    );
}

#[test]
fn merge_outcome_refines_normal_by_conflicts() {
    assert_eq!(
        merge_outcome(MergeAnalysisResult::Normal, true),
        MergeAnalysisResult::Conflicted
    );
    assert_eq!(
        merge_outcome(MergeAnalysisResult::Normal, false),
        MergeAnalysisResult::Normal
    );
    assert_eq!(
        merge_outcome(MergeAnalysisResult::UpToDate, true),
        MergeAnalysisResult::UpToDate
    );
    assert_eq!(
        merge_outcome(MergeAnalysisResult::FastForward, false),
        MergeAnalysisResult::FastForward
    );
}

#[test]
fn only_a_conflicted_outcome_warns() {
    assert_eq!(
        merge_warning(MergeAnalysisResult::Conflicted),
        Some(Error::MergeConflicted)
    );
    assert_eq!(merge_warning(MergeAnalysisResult::UpToDate), None);
    assert_eq!(merge_warning(MergeAnalysisResult::FastForward), None);
    assert_eq!(merge_warning(MergeAnalysisResult::Normal), None);
}

#[test]
fn tool_keys_chain_the_two_configuration_lookups() {
    assert_eq!(tool_name_key(&b"merge".to_vec()), b"merge.tool".to_vec());
    assert_eq!(
        tool_cmd_key(&b"merge".to_vec(), &b"meld".to_vec()),
        b"mergetool.meld.cmd".to_vec()
    );
    assert_eq!(tool_name_key(&b"diff".to_vec()), b"diff.tool".to_vec());
    assert_eq!(
        tool_cmd_key(&b"diff".to_vec(), &b"kdiff3".to_vec()),
        b"difftool.kdiff3.cmd".to_vec()
    );
}
