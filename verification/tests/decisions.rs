use heist_cli::adapters::testing::FakeGit;
use heist_cli::app::base::{decide_base, BaseResolution, ResolveError};
use heist_cli::app::worktree::{sweep_outcome, CleanupOutcome};
use heist_cli::domain::error::StateError;
use heist_cli::domain::git_text::{gh_list, merge_check_from_gh, pr_state_from_gh};
use heist_cli::domain::heist_paths::{heist_dir_path, score_file_path, state_file_path};
use heist_cli::domain::value::{NonBlankValue, RefValue, SlugValue};
use heist_cli::domain::worktree::heist_worktrees;
use heist_cli::ports::git::{GitError, GitRepository, MergeCheck, PrState, WorktreeInfo};

fn base() -> NonBlankValue {
    NonBlankValue::parse("base", "feature/x").expect("non-blank")
}

fn git_failure() -> GitError {
    GitError::CommandFailed { command: "gh pr list".to_string(), message: "boom".to_string() }
}

fn slug() -> SlugValue {
    SlugValue::parse("alpha").expect("valid slug")
}

#[test]
fn decide_base_without_base_is_null() {
    assert!(matches!(decide_base(None, false, None, None), Ok(BaseResolution::Null)));
}

#[test]
fn decide_base_landed_ancestor_is_expired_without_pr() {
    match decide_base(Some(base()), true, Some(Ok(true)), None) {
        Ok(BaseResolution::Expired { base_ref }) => assert_eq!(base_ref.as_str(), "feature/x"),
        other => panic!("unexpected {:?}", other),
    }
}

#[test]
fn decide_base_not_ancestor_asks_pr() {
    assert!(matches!(
        decide_base(Some(base()), true, Some(Ok(false)), Some(Ok(PrState::Open))),
        Ok(BaseResolution::Live { .. })
    ));
    assert!(matches!(
        decide_base(Some(base()), true, Some(Err(git_failure())), Some(Ok(PrState::NoPr))),
        Ok(BaseResolution::Live { .. })
    ));
    assert!(matches!(
        decide_base(Some(base()), false, None, Some(Ok(PrState::NoPr))),
        Err(ResolveError::RefMissingNoPr { .. })
    ));
    assert!(matches!(
        decide_base(Some(base()), false, None, Some(Ok(PrState::ClosedUnmerged))),
        Ok(BaseResolution::Abandoned { .. })
    ));
}

#[test]
fn gh_output_gives_strongest_state() {
    let out = br#"[{"state":"CLOSED","mergedAt":null},{"state":"OPEN","mergedAt":null}]"#;
    assert_eq!(pr_state_from_gh(true, out, "").unwrap(), PrState::Open);
    let merged = br#"[{"state":"CLOSED","mergedAt":null},{"state":"MERGED","mergedAt":"2024-01-01T00:00:00Z"}]"#;
    assert_eq!(pr_state_from_gh(true, merged, "").unwrap(), PrState::Merged);
    assert_eq!(pr_state_from_gh(true, b"[]", "").unwrap(), PrState::NoPr);
    assert_eq!(
        pr_state_from_gh(true, br#"[{"state":"CLOSED"}]"#, "").unwrap(),
        PrState::ClosedUnmerged
    );
}

#[test]
fn gh_failures_are_failed_commands() {
    match pr_state_from_gh(false, b"", "no auth") {
        Err(GitError::CommandFailed { command, message }) => {
            assert_eq!(command, "gh pr list");
            assert_eq!(message, "no auth");
        }
        other => panic!("unexpected {:?}", other),
    }
    match pr_state_from_gh(true, br#"{"state":"OPEN"}"#, "") {
        Err(GitError::CommandFailed { message, .. }) => assert_eq!(message, "expected JSON array"),
        other => panic!("unexpected {:?}", other),
    }
    match gh_list(true, b"not json", "") {
        Err(m) => assert!(m.starts_with("failed to parse gh output: "), "{}", m),
        Ok(_) => panic!("should not parse"),
    }
}

#[test]
fn gh_merged_listing_decides_merge_check() {
    assert!(matches!(merge_check_from_gh(true, br#"[{"number":3}]"#, ""), MergeCheck::Merged));
    assert!(matches!(
        merge_check_from_gh(true, br#"{"number":3}"#, ""),
        MergeCheck::NotMerged { verification_error: None }
    ));
    assert!(matches!(
        merge_check_from_gh(true, b"[]", ""),
        MergeCheck::NotMerged { verification_error: None }
    ));
    match merge_check_from_gh(false, b"", "gh: not logged in") {
        MergeCheck::NotMerged { verification_error: Some(m) } => assert_eq!(m, "gh: not logged in"),
        other => panic!("unexpected {:?}", other),
    }
}

#[test]
fn sweep_outcome_follows_each_step() {
    assert!(matches!(
        sweep_outcome(slug(), "heist/alpha", Ok(MergeCheck::Merged), true, None, None, None),
        CleanupOutcome::WouldRemove(_)
    ));
    assert!(matches!(
        sweep_outcome(slug(), "heist/alpha", Ok(MergeCheck::Merged), false, Some(Ok(())), Some(Ok(())), Some(Ok(()))),
        CleanupOutcome::Removed(_)
    ));
    match sweep_outcome(
        slug(),
        "heist/alpha",
        Ok(MergeCheck::Merged),
        false,
        Some(Ok(())),
        Some(Err(GitError::BranchDelete { message: "nope".to_string() })),
        None,
    ) {
        CleanupOutcome::Failed { reason, .. } => {
            assert!(reason.starts_with("worktree removed but branch heist/alpha not deleted: "), "{}", reason)
        }
        other => panic!("unexpected {:?}", other),
    }
    assert!(matches!(
        sweep_outcome(slug(), "heist/alpha", Ok(MergeCheck::Merged), false, Some(Ok(())), Some(Ok(())), Some(Err(StateError::Missing))),
        CleanupOutcome::Failed { .. }
    ));
    assert!(matches!(
        sweep_outcome(slug(), "heist/alpha", Ok(MergeCheck::NotMerged { verification_error: None }), false, None, None, None),
        CleanupOutcome::Skipped { .. }
    ));
}

#[test]
fn heist_worktrees_keeps_only_heist_owned_ones() {
    let infos = vec![
        WorktreeInfo { path: "/repo".to_string(), branch: Some("main".to_string()) },
        WorktreeInfo { path: "/repo/.worktrees/alpha".to_string(), branch: Some("heist/alpha".to_string()) },
        WorktreeInfo { path: "/repo/.worktrees/beta".to_string(), branch: Some("other".to_string()) },
        WorktreeInfo { path: "/elsewhere/gamma".to_string(), branch: Some("heist/gamma".to_string()) },
    ];
    let hws = heist_worktrees(&infos, "/repo");
    assert_eq!(hws.len(), 1);
    assert_eq!(hws[0].slug.as_str(), "alpha");
    assert_eq!(hws[0].branch.as_str(), "heist/alpha");
}

#[test]
fn heist_file_paths_live_under_heist_dir() {
    assert_eq!(heist_dir_path("alpha"), ".heist/alpha");
    assert_eq!(state_file_path("alpha"), ".heist/alpha/state.json");
    assert_eq!(score_file_path("alpha"), ".heist/alpha/score.md");
}

#[test]
fn fake_git_pr_state_defaults_to_no_pr() {
    let mut git = FakeGit::new().with_pr_state("feature/x", PrState::Merged);
    let r = RefValue::try_from_raw("feature/x").expect("ref");
    assert_eq!(git.pr_state(".", &r).unwrap(), PrState::Merged);
    let other = RefValue::try_from_raw("feature/y").expect("ref");
    assert_eq!(git.pr_state(".", &other).unwrap(), PrState::NoPr);
}
